//! The calls under assembly. A thunk can hand over scalars only, so it
//! opens a call, appends the arguments one by one, and then has the call
//! run with what was collected.
//!
//! Calls nest: a call that is opened while another is under assembly is
//! assembled and run without touching the outer one.

use vstd::prelude::*;
use crate::wire::ArgType;

verus! {

/// The stack of calls under assembly, the innermost last.
pub struct CallStack {
    frames: Vec<Vec<ArgType>>,
}

/// The argument lists of a stack of frames.
pub open spec fn frames_view(frames: Seq<Vec<ArgType>>) -> Seq<Seq<ArgType>> {
    frames.map_values(|f: Vec<ArgType>| f@)
}

impl View for CallStack {
    type V = Seq<Seq<ArgType>>;

    closed spec fn view(&self) -> Seq<Seq<ArgType>> {
        frames_view(self.frames@)
    }
}

/// The stack after a call was opened.
pub open spec fn opened(stack: Seq<Seq<ArgType>>) -> Seq<Seq<ArgType>> {
    stack.push(Seq::empty())
}

/// The stack after an argument was appended to the innermost call.
pub open spec fn appended(stack: Seq<Seq<ArgType>>, arg: ArgType) -> Seq<Seq<ArgType>> {
    stack.drop_last().push(stack.last().push(arg))
}

/// The stack after the arguments were appended, one after the other, to the
/// innermost call.
pub open spec fn appended_all(stack: Seq<Seq<ArgType>>, args: Seq<ArgType>) -> Seq<Seq<ArgType>>
    decreases args.len(),
{
    if args.len() == 0 {
        stack
    } else {
        appended(appended_all(stack, args.drop_last()), args.last())
    }
}

/// Appending arguments puts them behind those of the innermost call and
/// leaves the outer calls alone.
pub proof fn lemma_appended_all(stack: Seq<Seq<ArgType>>, args: Seq<ArgType>)
    requires
        stack.len() > 0,
    ensures
        appended_all(stack, args) == stack.drop_last().push(stack.last() + args),
    decreases args.len(),
{
    if args.len() == 0 {
        assert(stack.last() + args =~= stack.last());
        assert(stack.drop_last().push(stack.last()) =~= stack);
    } else {
        lemma_appended_all(stack, args.drop_last());
        let inner = stack.drop_last().push(stack.last() + args.drop_last());
        assert(inner.drop_last() =~= stack.drop_last());
        assert((stack.last() + args.drop_last()).push(args.last()) =~= stack.last() + args);
    }
}

/// A call that is opened, given its arguments and taken again hands back
/// those arguments, in order, and leaves the stack as it was before, however
/// many calls were under assembly.
pub proof fn lemma_call_is_nested(stack: Seq<Seq<ArgType>>, args: Seq<ArgType>)
    ensures
        appended_all(opened(stack), args).last() == args,
        appended_all(opened(stack), args).drop_last() == stack,
{
    lemma_appended_all(opened(stack), args);
    assert(Seq::<ArgType>::empty() + args =~= args);
    assert(opened(stack).drop_last() =~= stack);
    assert(stack.push(args).drop_last() =~= stack);
}

impl CallStack {
    /// No call under assembly.
    pub fn new() -> (stack: CallStack)
        ensures
            stack@ == Seq::<Seq<ArgType>>::empty(),
    {
        let stack = CallStack { frames: Vec::new() };
        assert(stack@ =~= Seq::<Seq<ArgType>>::empty());
        stack
    }

    /// How many calls are under assembly.
    pub fn depth(&self) -> (n: usize)
        ensures
            n == self@.len(),
    {
        self.frames.len()
    }

    /// Opens a call without arguments.
    pub fn begin_call(&mut self)
        ensures
            final(self)@ == opened(old(self)@),
    {
        self.frames.push(Vec::new());
        assert(self@ =~= opened(old(self)@));
    }

    /// Appends an argument to the innermost call. A call has to be open.
    pub fn push(&mut self, arg: ArgType)
        requires
            old(self)@.len() > 0,
        ensures
            final(self)@ == appended(old(self)@, arg),
    {
        let ghost before = self.frames@;
        assert(frames_view(before).len() == before.len());
        let mut frame = self.frames.pop().unwrap();
        frame.push(arg);
        self.frames.push(frame);
        assert(self@ =~= appended(old(self)@, arg)) by {
            assert(frames_view(before).last() == before.last()@);
            assert(forall|i: int|
                0 <= i < before.len() - 1 ==> frames_view(self.frames@)[i] == frames_view(
                    before,
                )[i]);
        }
    }

    /// Takes the innermost call off the stack and hands out its arguments.
    /// A call has to be open.
    pub fn take_call(&mut self) -> (args: Vec<ArgType>)
        requires
            old(self)@.len() > 0,
        ensures
            args@ == old(self)@.last(),
            final(self)@ == old(self)@.drop_last(),
    {
        let ghost before = self.frames@;
        assert(frames_view(before).len() == before.len());
        let frame = self.frames.pop().unwrap();
        assert(frames_view(before).last() == before.last()@);
        assert(self@ =~= old(self)@.drop_last());
        frame
    }
}

} // verus!
