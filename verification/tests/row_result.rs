//! What row computations may return, and how it is reduced.

use vortex_row::row::result::{DeferredError, SinkResult};

#[test]
fn one_failing_row_is_enough() {
    let mut error = DeferredError::default();
    assert!(!error.occurred());

    error |= DeferredError::new(false);
    assert!(!error.occurred());

    error |= DeferredError::new(true);
    assert!(error.occurred());

    error |= DeferredError::new(false);
    assert!(error.occurred());
}

#[test]
fn words_keep_every_bit_of_evidence() {
    let mut accumulated = <u16 as SinkResult>::start();
    assert!(!<u16 as SinkResult>::occurred(accumulated));

    assert!(0x0100u16.accumulate(&mut accumulated).is_ok());
    assert!(0x0001u16.accumulate(&mut accumulated).is_ok());
    assert!(0u16.accumulate(&mut accumulated).is_ok());

    assert_eq!(accumulated, 0x0101);
    assert!(<u16 as SinkResult>::occurred(accumulated));
}

#[test]
fn only_a_result_ends_the_loop() {
    assert!(!<() as SinkResult>::FALLIBLE && !<() as SinkResult>::DEFERRED);
    assert!(<Result<(), vortex_row::error::Error> as SinkResult>::FALLIBLE);
    assert!(<bool as SinkResult>::DEFERRED && !<bool as SinkResult>::FALLIBLE);
    assert!(<u8 as SinkResult>::DEFERRED);
    assert!(<u32 as SinkResult>::DEFERRED);
    assert!(<u64 as SinkResult>::DEFERRED);

    let mut accumulated = ();
    let failure: Result<(), vortex_row::error::Error> =
        Err(vortex_row::error::Error::Message(String::from("stop")));
    assert_eq!(failure.accumulate(&mut accumulated).unwrap_err().message(), "stop");
}

/// Nothing but the flag tells deferred errors apart.
#[test]
fn equal_flags_are_equal_errors() {
    assert_eq!(DeferredError::new(false), DeferredError::default());
    assert_eq!(DeferredError::new(true), DeferredError::new(true));
    assert_ne!(DeferredError::new(true), DeferredError::default());
}
