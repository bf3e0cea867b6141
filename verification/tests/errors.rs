use std::io;

use pagecache_core::errors::{render_cas_failed, render_io, CacheResult, Error};

fn io_fault() -> io::Error {
    io::Error::new(io::ErrorKind::Other, "boom")
}

#[test]
fn error_equality() {
    assert_eq!(Error::<u64>::CasFailed(5), Error::<u64>::CasFailed(5));
    assert_ne!(Error::<u64>::CasFailed(5), Error::<u64>::CasFailed(6));
    assert_eq!(
        Error::<u64>::Corruption { at: 1 },
        Error::<u64>::Corruption { at: 1 }
    );
    assert_ne!(
        Error::<u64>::Corruption { at: 1 },
        Error::<u64>::Corruption { at: 2 }
    );
    assert_eq!(
        Error::<u64>::Unsupported("x".to_string()),
        Error::<u64>::Unsupported("x".to_string())
    );
    assert_eq!(
        Error::<u64>::ReportableBug("y".to_string()),
        Error::<u64>::ReportableBug("y".to_string())
    );
    // different variants never compare equal
    assert_ne!(
        Error::<u64>::Unsupported("x".to_string()),
        Error::<u64>::ReportableBug("x".to_string())
    );
}

#[test]
fn io_errors_are_never_equal() {
    let a: Error<u64> = Error::Io(io_fault());
    let b: Error<u64> = Error::Io(io_fault());
    assert_ne!(a, b);
    // not even to themselves: an intentional quirk of the model
    assert!(a != a);
}

#[test]
fn display_exactness() {
    assert_eq!(
        Error::<i32>::CasFailed(5).display_string(),
        "Atomic operation has failed: 5"
    );
    assert_eq!(
        Error::<i32>::Unsupported("no such op".to_string()).display_string(),
        "Unsupported: no such op"
    );
    assert_eq!(
        Error::<i32>::ReportableBug("invariant broke".to_string()).display_string(),
        "Unexpected bug has happened: invariant broke"
    );
    assert_eq!(
        Error::<i32>::Io(io_fault()).display_string(),
        "IO error: boom"
    );
    assert_eq!(
        Error::<i32>::Corruption { at: 1234 }.display_string(),
        "Corruption at: 1234"
    );
    assert_eq!(
        Error::<i32>::Corruption { at: 0 }.display_string(),
        "Corruption at: 0"
    );
    assert_eq!(
        Error::<i32>::Corruption { at: u64::MAX }.display_string(),
        "Corruption at: 18446744073709551615"
    );
}

#[test]
fn template_application_is_exact() {
    assert_eq!(render_cas_failed("5"), "Atomic operation has failed: 5");
    assert_eq!(render_cas_failed(""), "Atomic operation has failed: ");
    assert_eq!(render_io("boom"), "IO error: boom");
    assert_eq!(render_io(""), "IO error: ");
}

#[test]
fn cast_converts_the_conflict_payload() {
    let e: Error<u32> = Error::CasFailed(5);
    assert_eq!(e.cast::<u64>(), Error::<u64>::CasFailed(5));
    let e: Error<u32> = Error::Unsupported("u".to_string());
    assert_eq!(e.cast::<u64>(), Error::<u64>::Unsupported("u".to_string()));
    let e: Error<u32> = Error::ReportableBug("r".to_string());
    assert_eq!(
        e.cast::<u64>(),
        Error::<u64>::ReportableBug("r".to_string())
    );
    let e: Error<u32> = Error::Corruption { at: 9 };
    assert_eq!(e.cast::<u64>(), Error::<u64>::Corruption { at: 9 });
    let e: Error<u32> = Error::Io(io_fault());
    assert_eq!(
        e.cast::<u64>().display_string(),
        "IO error: boom"
    );
}

#[test]
fn danger_cast_passes_every_other_variant_through() {
    let e: Error<u32> = Error::Unsupported("u".to_string());
    assert_eq!(
        e.danger_cast::<String>(),
        Error::<String>::Unsupported("u".to_string())
    );
    let e: Error<u32> = Error::ReportableBug("r".to_string());
    assert_eq!(
        e.danger_cast::<String>(),
        Error::<String>::ReportableBug("r".to_string())
    );
    let e: Error<u32> = Error::Corruption { at: 7 };
    assert_eq!(
        e.danger_cast::<String>(),
        Error::<String>::Corruption { at: 7 }
    );
    let e: Error<u32> = Error::Io(io_fault());
    assert_eq!(
        e.danger_cast::<String>().display_string(),
        "IO error: boom"
    );
}

#[test]
fn io_faults_convert_into_the_io_variant() {
    let e: Error<u64> = Error::from(io_fault());
    assert!(matches!(e, Error::Io(_)));
    assert_eq!(e.display_string(), "IO error: boom");
}

#[test]
fn cache_result_is_the_common_channel() {
    let ok: CacheResult<u32, u64> = Ok(17);
    assert_eq!(ok.unwrap(), 17);
    let err: CacheResult<u32, u64> = Err(Error::CasFailed(3));
    match err {
        Err(Error::CasFailed(actual)) => assert_eq!(actual, 3),
        other => panic!("expected a conflict, got {:?}", other),
    }
}
