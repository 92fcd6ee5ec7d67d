use vstd::prelude::*;

verus! {

/// Whether a new captured output differs from the previous one, byte for byte.
pub open spec fn output_changed(previous: Seq<u8>, output: Seq<u8>) -> bool {
    previous != output
}

/// The trigger decisions made over a run of captured outputs, starting from
/// an empty previous output: entry `i` tells whether output `i` fired the trigger.
pub open spec fn trigger_decisions(outputs: Seq<Seq<u8>>) -> Seq<bool> {
    Seq::new(
        outputs.len(),
        |i: int|
            output_changed(
                if i == 0 {
                    Seq::<u8>::empty()
                } else {
                    outputs[i - 1]
                },
                outputs[i],
            ),
    )
}

/// The number of trigger invocations over a run of decisions.
pub open spec fn trigger_count(decisions: Seq<bool>) -> nat
    decreases decisions.len(),
{
    if decisions.len() == 0 {
        0
    } else {
        trigger_count(decisions.drop_last()) + if decisions.last() {
            1nat
        } else {
            0nat
        }
    }
}

/// Compares two byte sequences.
pub fn bytes_equal(a: &Vec<u8>, b: &Vec<u8>) -> (r: bool)
    ensures
        r == (a@ == b@),
{
    if a.len() != b.len() {
        return false;
    }
    let mut i: usize = 0;
    while i < a.len()
        invariant
            a@.len() == b@.len(),
            i <= a@.len(),
            forall|j: int| 0 <= j < i ==> a@[j] == b@[j],
        decreases a@.len() - i,
    {
        if a[i] != b[i] {
            return false;
        }
        i = i + 1;
    }
    assert(a@ =~= b@);
    true
}

/// The decision state of a command-diff watcher: the output captured by the
/// previous poll, empty before the first.
pub struct ChangeDetector {
    previous_output: Vec<u8>,
}

impl View for ChangeDetector {
    type V = Seq<u8>;

    closed spec fn view(&self) -> Seq<u8> {
        self.previous_output@
    }
}

impl ChangeDetector {
    /// A detector whose previous output is empty.
    pub fn new() -> (r: Self)
        ensures
            r@ == Seq::<u8>::empty(),
    {
        ChangeDetector { previous_output: Vec::new() }
    }

    /// Records `output` as the latest capture and tells whether it differs
    /// from the previous one, that is, whether the trigger fires.
    pub fn observe(&mut self, output: Vec<u8>) -> (changed: bool)
        ensures
            changed == output_changed(old(self)@, output@),
            final(self)@ == output@,
    {
        let changed = !bytes_equal(&self.previous_output, &output);
        self.previous_output = output;
        changed
    }
}

/// For a run of five captures `[a, a, b, b, a]` with `a != b`, the trigger
/// fires on the change from `a` to `b` and on the change back, and on the
/// first capture exactly when `a` is not empty.
pub proof fn lemma_alternating_outputs_trigger(a: Seq<u8>, b: Seq<u8>)
    requires
        a != b,
    ensures
        trigger_decisions(seq![a, a, b, b, a]) == seq![a.len() != 0, false, true, false, true],
        trigger_count(trigger_decisions(seq![a, a, b, b, a])) == 2 + if a.len() != 0 {
            1nat
        } else {
            0nat
        },
{
    let outputs = seq![a, a, b, b, a];
    let d = trigger_decisions(outputs);
    let expected = seq![a.len() != 0, false, true, false, true];
    if a.len() != 0 {
        assert(Seq::<u8>::empty() != a) by {
            assert(Seq::<u8>::empty().len() != a.len());
        }
    } else {
        assert(a =~= Seq::<u8>::empty());
    }
    assert(d =~= expected);
    reveal_with_fuel(trigger_count, 6);
    assert(expected.drop_last() =~= seq![a.len() != 0, false, true, false]);
    assert(expected.drop_last().drop_last() =~= seq![a.len() != 0, false, true]);
    assert(expected.drop_last().drop_last().drop_last() =~= seq![a.len() != 0, false]);
    assert(expected.drop_last().drop_last().drop_last().drop_last() =~= seq![a.len() != 0]);
    assert(expected.drop_last().drop_last().drop_last().drop_last().drop_last() =~= Seq::<
        bool,
    >::empty());
}

} // verus!
