//! Error-handling helpers shared by the frame and upload loops: a failed
//! `Result` passes through unchanged or degrades to `Option` or `Default`,
//! and `Option` and `Result` unwrap through one common `Result<T, String>`.

use vstd::prelude::*;

verus! {

/// Passes a `Result` on (for logging at the call site) or degrades it to `Option`.
pub trait LogDebug<T>: Sized {
    /// The value itself.
    fn info(self) -> (r: Self)
        ensures
            r == self;

    /// The value itself.
    fn warn(self) -> (r: Self)
        ensures
            r == self;

    /// The success value, if any.
    fn warn_ok(self) -> Option<T>;
}

impl<T, D> LogDebug<T> for Result<T, D> {
    fn info(self) -> (r: Self) {
        self
    }

    fn warn(self) -> (r: Self) {
        self
    }

    fn warn_ok(self) -> (r: Option<T>)
        ensures
            r == self.ok(),
    {
        self.warn().ok()
    }
}

/// Falls back to `Default` when a `Result` failed.
pub trait WarnOrDefault<T>: Sized {
    fn warn_unwrap_or_default(self) -> T;
}

impl<T: Default, D> WarnOrDefault<T> for Result<T, D> {
    fn warn_unwrap_or_default(self) -> (r: T)
        ensures
            self matches Ok(t) ==> r == t,
            self is Err ==> call_ensures(T::default, (), r),
    {
        match self {
            Ok(t) => t,
            Err(_) => T::default(),
        }
    }
}

/// One unwrapping base for `Option` and `Result`: the failure as a `String`.
pub trait UnwrapPanic<T>: Sized {
    fn into_result(self) -> Result<T, String>;
}

impl<T, E: std::fmt::Display> UnwrapPanic<T> for Result<T, E> {
    fn into_result(self) -> (r: Result<T, String>)
        ensures
            self matches Ok(t) ==> r == Ok::<T, String>(t),
            self matches Err(e) ==> (r matches Err(s) && vstd::string::to_string_from_display_ensures::<E>(&e, s)),
    {
        match self {
            Ok(t) => Ok(t),
            Err(e) => Err(e.to_string()),
        }
    }
}

impl<T> UnwrapPanic<T> for Option<T> {
    fn into_result(self) -> (r: Result<T, String>)
        ensures
            self matches Some(t) ==> r == Ok::<T, String>(t),
            self is None ==> (r matches Err(s) && s@ == "None"@),
    {
        match self {
            Some(t) => Ok(t),
            None => {
                let s = "None".to_string();
                proof {
                    vstd::string::to_string_from_display_ensures_for_str("None", s);
                }
                Err(s)
            },
        }
    }
}

} // verus!
