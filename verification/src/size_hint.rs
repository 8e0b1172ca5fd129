//! Size hints that follow a stream as its elements are consumed.

use vstd::prelude::*;

verus! {

/// A `(lower, upper)` bound on the number of elements left in a stream.
pub type SizeHint = (usize, Option<usize>);

/// The hint that remains once one element has been yielded: both bounds drop
/// by one and stop at zero.
pub open spec fn spec_decrement_size_hint(size_hint: SizeHint) -> SizeHint {
    (
        if size_hint.0 == 0 { 0usize } else { (size_hint.0 - 1) as usize },
        match size_hint.1 {
            Some(upper) => Some(if upper == 0 { 0usize } else { (upper - 1) as usize }),
            None => None,
        },
    )
}

/// Decrement a size hint, saturating both bounds at zero.
pub fn decrement_size_hint(size_hint: (usize, Option<usize>)) -> (result: (usize, Option<usize>))
    ensures
        result == spec_decrement_size_hint(size_hint),
{
    let (lower, upper) = size_hint;
    let lower: usize = if lower == 0 { 0 } else { lower - 1 };
    let upper: Option<usize> = match upper {
        Some(x) => Some(if x == 0 { 0 } else { x - 1 }),
        None => None,
    };
    (lower, upper)
}

} // verus!

verus! {

/// A stream with an external size hint, which is updated as items are
/// consumed.
pub struct SizeHintStream<S> {
    /// The stream to wrap.
    pub stream: S,
    /// The size hint.
    pub size_hint: (usize, Option<usize>),
}

impl<S> SizeHintStream<S> {
    /// Create a new [`SizeHintStream`] from a stream and a size hint.
    pub fn new(stream: S, size_hint: (usize, Option<usize>)) -> (s: Self)
        ensures
            s.stream == stream,
            s.size_hint == size_hint,
    {
        Self { stream, size_hint }
    }

    /// The hint on the number of items still to come.
    pub fn size_hint(&self) -> (hint: (usize, Option<usize>))
        ensures
            hint == self.size_hint,
    {
        self.size_hint
    }

    /// Record that the stream has yielded an item.
    pub fn item_yielded(&mut self)
        ensures
            final(self).size_hint == spec_decrement_size_hint(old(self).size_hint),
            final(self).stream == old(self).stream,
    {
        self.size_hint = decrement_size_hint(self.size_hint);
    }
}

/// Adds `with_size_hint` to every stream.
pub trait WithSizeHintExt: Sized {
    /// Wrap the stream in a [`SizeHintStream`] with the given size hint.
    fn with_size_hint(self, size_hint: (usize, Option<usize>)) -> (s: SizeHintStream<Self>)
        ensures
            s.stream == self,
            s.size_hint == size_hint,
    ;
}

impl<S> WithSizeHintExt for S {
    fn with_size_hint(self, size_hint: (usize, Option<usize>)) -> (s: SizeHintStream<Self>) {
        SizeHintStream::new(self, size_hint)
    }
}

/// After `n` items the lower bound of a hint is `n` less, and zero where it
/// was less than `n`: the hint saturates.
pub open spec fn decremented(size_hint: SizeHint, n: nat) -> SizeHint
    decreases n,
{
    if n == 0 {
        size_hint
    } else {
        spec_decrement_size_hint(decremented(size_hint, (n - 1) as nat))
    }
}

/// What `decremented` comes to.
pub proof fn lemma_decremented(size_hint: SizeHint, n: nat)
    ensures
        decremented(size_hint, n).0 == (if size_hint.0 >= n { size_hint.0 - n } else { 0 }),
        decremented(size_hint, n).1 == (match size_hint.1 {
            Some(upper) => Some((if upper >= n { upper - n } else { 0 }) as usize),
            None => None,
        }),
    decreases n,
{
    if n > 0 {
        lemma_decremented(size_hint, (n - 1) as nat);
    }
}

} // verus!
