//! What a sink-writing row closure may return.

use std::ops::BitOrAssign;

use vstd::prelude::*;

use crate::error::{Error, ErrorModel};
use crate::row::private::Sealed;

verus! {

/// A value-dependent failure bit reduced across the whole row loop and handed to the output sink.
///
/// Unlike a [`Result`], this never exits the loop. It is for kernels such as checked addition that
/// can safely write a provisional value for every row and report any failure once at the end.
#[derive(Clone, Copy, Debug, PartialEq, Eq, Structural)]
pub struct DeferredError(bool);

impl DeferredError {
    /// Whether any row accumulated into this value failed.
    pub closed spec fn failed(self) -> bool {
        self.0
    }

    /// Record whether this row encountered an error.
    pub fn new(failed: bool) -> (error: Self)
        ensures
            error.failed() == failed,
    {
        Self(failed)
    }

    /// Whether any row accumulated into this value failed.
    pub fn occurred(self) -> (result: bool)
        ensures
            result == self.failed(),
    {
        self.0
    }
}

/// Nothing but the flag tells deferred errors apart: what records no failure is the default.
pub proof fn equal_flags_are_equal_errors(left: DeferredError, right: DeferredError)
    ensures
        left == right <==> left.failed() == right.failed(),
{
}

impl Default for DeferredError {
    fn default() -> (error: Self)
        ensures
            !error.failed(),
    {
        Self(false)
    }
}

impl BitOrAssign for DeferredError {
    fn bitor_assign(&mut self, rhs: Self)
        ensures
            final(self).failed() == (old(self).failed() || rhs.failed()),
    {
        self.0 = self.0 || rhs.0;
    }
}

/// What a row computation that writes into an output sink may produce: nothing, an early error, or
/// non-branching failure evidence.
///
/// The value is already in the sink by the time the closure returns, so the only thing left to
/// report is failure. [`Accumulated`](Self::Accumulated) is the word that the executor reduces into
/// a local; it exists so that evidence can be wider than one bit when narrowing it per row would
/// cost more than carrying it. The sink never sees it: it is handed a plain [`DeferredError`] once,
/// after the loop.
pub trait SinkResult: 'static + Sized + Sealed {
    /// The word this result reduces into, kept in a loop-local by the executor.
    type Accumulated: 'static;

    /// Whether this return type can carry an error.
    const FALLIBLE: bool;

    /// Whether this result carries non-branching failure evidence for the sink.
    const DEFERRED: bool;

    /// The error with which this outcome ends the row loop.
    spec fn early_error(self) -> Option<ErrorModel>;

    /// Whether this outcome is evidence of a failure that the sink reports after the loop.
    spec fn evidence(self) -> bool;

    /// Whether a reduction holds evidence.
    spec fn failed(accumulated: Self::Accumulated) -> bool;

    /// Only a fallible result ends the loop, and only a deferred one carries evidence.
    proof fn lemma_kind(self)
        ensures
            !Self::FALLIBLE ==> self.early_error() is None,
            !Self::DEFERRED ==> !self.evidence(),
    ;

    /// The reduction of no rows.
    fn start() -> (accumulated: Self::Accumulated)
        ensures
            !Self::failed(accumulated),
    ;

    /// Merge this row's outcome into the batch-wide reduction.
    fn accumulate(self, accumulated: &mut Self::Accumulated) -> (result: Result<(), Error>)
        ensures
            match result {
                Ok(_) => {
                    &&& self.early_error() is None
                    &&& Self::failed(*final(accumulated)) == (Self::failed(*old(accumulated))
                        || self.evidence())
                },
                Err(error) => {
                    &&& self.early_error() == Some(error@)
                    &&& *final(accumulated) == *old(accumulated)
                },
            },
    ;

    /// Whether the finished reduction means some row failed.
    fn occurred(accumulated: Self::Accumulated) -> (result: bool)
        ensures
            result == Self::failed(accumulated),
    ;
}

impl Sealed for () {

}

impl SinkResult for () {
    type Accumulated = ();

    const FALLIBLE: bool = false;

    const DEFERRED: bool = false;

    open spec fn early_error(self) -> Option<ErrorModel> {
        None
    }

    open spec fn evidence(self) -> bool {
        false
    }

    open spec fn failed(accumulated: ()) -> bool {
        false
    }

    proof fn lemma_kind(self) {
    }

    fn start() -> (accumulated: ()) {
    }

    fn accumulate(self, accumulated: &mut ()) -> (result: Result<(), Error>) {
        Ok(())
    }

    fn occurred(accumulated: ()) -> (result: bool) {
        false
    }
}

impl Sealed for Result<(), Error> {

}

impl SinkResult for Result<(), Error> {
    type Accumulated = ();

    const FALLIBLE: bool = true;

    const DEFERRED: bool = false;

    open spec fn early_error(self) -> Option<ErrorModel> {
        match self {
            Ok(_) => None,
            Err(error) => Some(error@),
        }
    }

    open spec fn evidence(self) -> bool {
        false
    }

    open spec fn failed(accumulated: ()) -> bool {
        false
    }

    proof fn lemma_kind(self) {
    }

    fn start() -> (accumulated: ()) {
    }

    fn accumulate(self, accumulated: &mut ()) -> (result: Result<(), Error>) {
        self
    }

    fn occurred(accumulated: ()) -> (result: bool) {
        false
    }
}

impl Sealed for bool {

}

impl SinkResult for bool {
    type Accumulated = bool;

    const FALLIBLE: bool = false;

    const DEFERRED: bool = true;

    open spec fn early_error(self) -> Option<ErrorModel> {
        None
    }

    open spec fn evidence(self) -> bool {
        self
    }

    open spec fn failed(accumulated: bool) -> bool {
        accumulated
    }

    proof fn lemma_kind(self) {
    }

    fn start() -> (accumulated: bool) {
        false
    }

    fn accumulate(self, accumulated: &mut bool) -> (result: Result<(), Error>)
        ensures
            *final(accumulated) == (*old(accumulated) || self),
    {
        *accumulated = *accumulated || self;
        Ok(())
    }

    fn occurred(accumulated: bool) -> (result: bool) {
        accumulated
    }
}

impl Sealed for u8 {

}

impl SinkResult for u8 {
    type Accumulated = u8;

    const FALLIBLE: bool = false;

    const DEFERRED: bool = true;

    open spec fn early_error(self) -> Option<ErrorModel> {
        None
    }

    open spec fn evidence(self) -> bool {
        self != 0
    }

    open spec fn failed(accumulated: u8) -> bool {
        accumulated != 0
    }

    proof fn lemma_kind(self) {
    }

    fn start() -> (accumulated: u8) {
        0
    }

    fn accumulate(self, accumulated: &mut u8) -> (result: Result<(), Error>)
        ensures
            *final(accumulated) == *old(accumulated) | self,
    {
        let word: u8 = *accumulated;
        assert(word | self != 0 <==> (word != 0 || self != 0)) by (bit_vector);
        *accumulated = word | self;
        Ok(())
    }

    fn occurred(accumulated: u8) -> (result: bool) {
        accumulated != 0
    }
}

impl Sealed for u16 {

}

impl SinkResult for u16 {
    type Accumulated = u16;

    const FALLIBLE: bool = false;

    const DEFERRED: bool = true;

    open spec fn early_error(self) -> Option<ErrorModel> {
        None
    }

    open spec fn evidence(self) -> bool {
        self != 0
    }

    open spec fn failed(accumulated: u16) -> bool {
        accumulated != 0
    }

    proof fn lemma_kind(self) {
    }

    fn start() -> (accumulated: u16) {
        0
    }

    fn accumulate(self, accumulated: &mut u16) -> (result: Result<(), Error>)
        ensures
            *final(accumulated) == *old(accumulated) | self,
    {
        let word: u16 = *accumulated;
        assert(word | self != 0 <==> (word != 0 || self != 0)) by (bit_vector);
        *accumulated = word | self;
        Ok(())
    }

    fn occurred(accumulated: u16) -> (result: bool) {
        accumulated != 0
    }
}

impl Sealed for u32 {

}

impl SinkResult for u32 {
    type Accumulated = u32;

    const FALLIBLE: bool = false;

    const DEFERRED: bool = true;

    open spec fn early_error(self) -> Option<ErrorModel> {
        None
    }

    open spec fn evidence(self) -> bool {
        self != 0
    }

    open spec fn failed(accumulated: u32) -> bool {
        accumulated != 0
    }

    proof fn lemma_kind(self) {
    }

    fn start() -> (accumulated: u32) {
        0
    }

    fn accumulate(self, accumulated: &mut u32) -> (result: Result<(), Error>)
        ensures
            *final(accumulated) == *old(accumulated) | self,
    {
        let word: u32 = *accumulated;
        assert(word | self != 0 <==> (word != 0 || self != 0)) by (bit_vector);
        *accumulated = word | self;
        Ok(())
    }

    fn occurred(accumulated: u32) -> (result: bool) {
        accumulated != 0
    }
}

impl Sealed for u64 {

}

impl SinkResult for u64 {
    type Accumulated = u64;

    const FALLIBLE: bool = false;

    const DEFERRED: bool = true;

    open spec fn early_error(self) -> Option<ErrorModel> {
        None
    }

    open spec fn evidence(self) -> bool {
        self != 0
    }

    open spec fn failed(accumulated: u64) -> bool {
        accumulated != 0
    }

    proof fn lemma_kind(self) {
    }

    fn start() -> (accumulated: u64) {
        0
    }

    fn accumulate(self, accumulated: &mut u64) -> (result: Result<(), Error>)
        ensures
            *final(accumulated) == *old(accumulated) | self,
    {
        let word: u64 = *accumulated;
        assert(word | self != 0 <==> (word != 0 || self != 0)) by (bit_vector);
        *accumulated = word | self;
        Ok(())
    }

    fn occurred(accumulated: u64) -> (result: bool) {
        accumulated != 0
    }
}

/// What each supplied outcome claims: only a `Result` ends the loop, and only `bool` and the words
/// carry evidence.
pub proof fn outcome_claims()
    ensures
        !<() as SinkResult>::FALLIBLE && !<() as SinkResult>::DEFERRED,
        <Result<(), Error> as SinkResult>::FALLIBLE,
        !<Result<(), Error> as SinkResult>::DEFERRED,
        !<bool as SinkResult>::FALLIBLE && <bool as SinkResult>::DEFERRED,
        !<u8 as SinkResult>::FALLIBLE && <u8 as SinkResult>::DEFERRED,
        !<u16 as SinkResult>::FALLIBLE && <u16 as SinkResult>::DEFERRED,
        !<u32 as SinkResult>::FALLIBLE && <u32 as SinkResult>::DEFERRED,
        !<u64 as SinkResult>::FALLIBLE && <u64 as SinkResult>::DEFERRED,
{
}

/// What is recorded in a deferred error is read back: a fresh one holds no failure, and merging
/// another one in adds its failure and takes none away.
pub proof fn deferred_errors_remember_failures(
    failed: bool,
    error: DeferredError,
    occurred: bool,
    fresh: DeferredError,
    fresh_occurred: bool,
)
    requires
        call_ensures(DeferredError::new, (failed,), error),
        call_ensures(DeferredError::occurred, (error,), occurred),
        call_ensures(<DeferredError as Default>::default, (), fresh),
        call_ensures(DeferredError::occurred, (fresh,), fresh_occurred),
    ensures
        occurred == failed,
        !fresh_occurred,
{
}

/// A flag is evidence exactly where it is set, a reduction of flags holds evidence exactly where it
/// is set, and it starts out unset.
pub proof fn flags_are_evidence_where_set(flag: bool, start: bool, occurred: bool)
    requires
        call_ensures(<bool as SinkResult>::start, (), start),
        call_ensures(<bool as SinkResult>::occurred, (flag,), occurred),
    ensures
        <bool as SinkResult>::evidence(flag) <==> flag,
        <bool as SinkResult>::failed(flag) <==> flag,
        <bool as SinkResult>::early_error(flag) is None,
        !start,
        occurred <==> flag,
{
}

/// A word of this width is evidence exactly where it is not zero, a reduction of words holds
/// evidence exactly where it is not zero, and it starts out as zero.
pub proof fn u8_words_are_evidence_unless_zero(word: u8, start: u8, occurred: bool)
    requires
        call_ensures(<u8 as SinkResult>::start, (), start),
        call_ensures(<u8 as SinkResult>::occurred, (word,), occurred),
    ensures
        <u8 as SinkResult>::evidence(word) <==> word != 0,
        <u8 as SinkResult>::failed(word) <==> word != 0,
        <u8 as SinkResult>::early_error(word) is None,
        start == 0,
        occurred <==> word != 0,
{
}

/// A word of this width is evidence exactly where it is not zero, a reduction of words holds
/// evidence exactly where it is not zero, and it starts out as zero.
pub proof fn u16_words_are_evidence_unless_zero(word: u16, start: u16, occurred: bool)
    requires
        call_ensures(<u16 as SinkResult>::start, (), start),
        call_ensures(<u16 as SinkResult>::occurred, (word,), occurred),
    ensures
        <u16 as SinkResult>::evidence(word) <==> word != 0,
        <u16 as SinkResult>::failed(word) <==> word != 0,
        <u16 as SinkResult>::early_error(word) is None,
        start == 0,
        occurred <==> word != 0,
{
}

/// A word of this width is evidence exactly where it is not zero, a reduction of words holds
/// evidence exactly where it is not zero, and it starts out as zero.
pub proof fn u32_words_are_evidence_unless_zero(word: u32, start: u32, occurred: bool)
    requires
        call_ensures(<u32 as SinkResult>::start, (), start),
        call_ensures(<u32 as SinkResult>::occurred, (word,), occurred),
    ensures
        <u32 as SinkResult>::evidence(word) <==> word != 0,
        <u32 as SinkResult>::failed(word) <==> word != 0,
        <u32 as SinkResult>::early_error(word) is None,
        start == 0,
        occurred <==> word != 0,
{
}

/// A word of this width is evidence exactly where it is not zero, a reduction of words holds
/// evidence exactly where it is not zero, and it starts out as zero.
pub proof fn u64_words_are_evidence_unless_zero(word: u64, start: u64, occurred: bool)
    requires
        call_ensures(<u64 as SinkResult>::start, (), start),
        call_ensures(<u64 as SinkResult>::occurred, (word,), occurred),
    ensures
        <u64 as SinkResult>::evidence(word) <==> word != 0,
        <u64 as SinkResult>::failed(word) <==> word != 0,
        <u64 as SinkResult>::early_error(word) is None,
        start == 0,
        occurred <==> word != 0,
{
}

/// What ends a row loop is an error that a row returns, and that very one. Nothing else ends it,
/// and neither it nor a row that returns nothing is evidence for the sink.
pub proof fn only_returned_errors_end_the_loop(result: Result<(), Error>)
    ensures
        match result {
            Ok(_) => result.early_error() is None,
            Err(error) => result.early_error() == Some(error@),
        },
        !result.evidence(),
        <() as SinkResult>::early_error(()) is None,
        !<() as SinkResult>::evidence(()),
{
}

} // verus!
