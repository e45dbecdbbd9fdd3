use ash_renderer::syntax::{LogDebug, UnwrapPanic, WarnOrDefault};

#[test]
fn results_pass_through_or_degrade() {
    let ok: Result<u32, String> = Ok(3);
    let err: Result<u32, String> = Err("bad".to_string());
    assert_eq!(ok.clone().info(), Ok(3));
    assert_eq!(err.clone().warn(), Err("bad".to_string()));
    assert_eq!(ok.clone().warn_ok(), Some(3));
    assert_eq!(err.clone().warn_ok(), None);
    assert_eq!(ok.warn_unwrap_or_default(), 3);
    assert_eq!(err.warn_unwrap_or_default(), 0);
}

#[test]
fn option_and_result_unwrap_through_strings() {
    assert_eq!(Some(5u8).into_result(), Ok(5));
    assert_eq!(None::<u8>.into_result(), Err("None".to_string()));
    let failed: Result<u8, std::fmt::Error> = Err(std::fmt::Error);
    assert_eq!(failed.into_result(), Err(std::fmt::Error.to_string()));
    let fine: Result<u8, std::fmt::Error> = Ok(1);
    assert_eq!(fine.into_result(), Ok(1));
}
