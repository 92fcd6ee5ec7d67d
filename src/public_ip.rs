use vstd::prelude::*;

verus! {

/// Reads the public IP address with `dig`, which prints it on one line.
pub struct Dig {}

impl Dig {
    pub fn new() -> (r: Dig) {
        Dig {}
    }

    /// The program this reader runs.
    pub fn name(&self) -> (r: &'static str)
        ensures
            r@ == "dig"@,
    {
        "dig"
    }

    /// The text of the address in `dig`'s output: everything but its last
    /// byte, the closing newline. `None` for an empty output.
    pub fn address_text(&self, output: &Vec<u8>) -> (r: Option<Vec<u8>>)
        ensures
            output@.len() == 0 <==> r is None,
            r matches Some(t) ==> t@ == output@.drop_last(),
    {
        let n = output.len();
        if n == 0 {
            return None;
        }
        let mut text: Vec<u8> = Vec::new();
        let mut i: usize = 0;
        while i < n - 1
            invariant
                n == output@.len(),
                n > 0,
                i <= n - 1,
                text@ == output@.subrange(0, i as int),
            decreases n - 1 - i,
        {
            text.push(output[i]);
            i = i + 1;
            assert(text@ =~= output@.subrange(0, i as int));
        }
        assert(text@ =~= output@.drop_last());
        Some(text)
    }
}

/// The position of the first tool that is installed, in priority order.
pub fn first_installed(installed: &Vec<bool>) -> (r: Option<usize>)
    ensures
        match r {
            Some(i) => i < installed@.len() && installed@[i as int] && forall|j: int|
                0 <= j < i ==> !installed@[j],
            None => forall|j: int| 0 <= j < installed@.len() ==> !installed@[j],
        },
{
    let mut i: usize = 0;
    while i < installed.len()
        invariant
            i <= installed@.len(),
            forall|j: int| 0 <= j < i ==> !installed@[j],
        decreases installed@.len() - i,
    {
        if installed[i] {
            return Some(i);
        }
        i = i + 1;
    }
    None
}

} // verus!
