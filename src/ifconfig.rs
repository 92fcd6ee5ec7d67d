use vstd::prelude::*;

use crate::errors::GetNetInterfacesError;

verus! {

/// What `regex` finds in `text` for `pattern`: `None` when the pattern is
/// rejected; otherwise, for each successive non-overlapping match, the text of
/// each capture group by number (group 0 is the whole match), `None` for a group
/// that took no part in the match.
pub uninterp spec fn regex_captures(pattern: Seq<char>, text: Seq<char>) -> Option<
    Seq<Seq<Option<Seq<char>>>>,
>;

pub open spec fn group_view(g: Option<String>) -> Option<Seq<char>> {
    match g {
        Some(s) => Some(s@),
        None => None,
    }
}

pub open spec fn captures_view(ms: Seq<Vec<Option<String>>>) -> Seq<Seq<Option<Seq<char>>>> {
    ms.map_values(|m: Vec<Option<String>>| m@.map_values(|g: Option<String>| group_view(g)))
}

/// Relies on `regex::Regex::new` to compile `pattern` (an error when it is
/// invalid or too large) and on `Regex::captures_iter`, `Captures::iter` and
/// `Match::as_str` to list the groups of each match.
#[verifier::external_body]
fn captures_of(pattern: &str, text: &str) -> (r: Option<Vec<Vec<Option<String>>>>)
    ensures
        match r {
            Some(ms) => regex_captures(pattern@, text@) == Some(captures_view(ms@)),
            None => regex_captures(pattern@, text@) is None,
        },
{
    let re = regex::Regex::new(pattern).ok()?;
    Some(
        re.captures_iter(text).map(
            |c| c.iter().map(|g| g.map(|m| m.as_str().to_string())).collect(),
        ).collect(),
    )
}

/// The pattern that splits `ifconfig -a` output into interfaces: group 1 is
/// the name, group 2 the IPv4 address, group 3 the IPv6 address.
pub const IFCONFIG_PATTERN: &'static str = "(?P<interface_name>.*?): (?:[\\S\\s]*?inet (?P<interface_ip_v4>.*?)  netmask){0,1}(?:[\\S\\s]*?(?:RX|inet6 (?P<interface_ip_v6>.*?)  prefixlen)){0,1}";

/// Group `i` of a match, `None` when the match has no such group.
pub open spec fn group(m: Seq<Option<Seq<char>>>, i: int) -> Option<Seq<char>> {
    if 0 <= i < m.len() {
        m[i]
    } else {
        None
    }
}

/// The address texts of one match: its IPv4 address, then its IPv6 address,
/// each when present.
pub open spec fn addresses_of(m: Seq<Option<Seq<char>>>) -> Seq<Seq<char>> {
    let v4 = match group(m, 2) {
        Some(a) => seq![a],
        None => Seq::empty(),
    };
    let v6 = match group(m, 3) {
        Some(a) => seq![a],
        None => Seq::empty(),
    };
    v4 + v6
}

/// The interfaces found in a list of matches, in order: a name with its
/// address texts for each. Every match must name its interface.
pub open spec fn interfaces_from(ms: Seq<Seq<Option<Seq<char>>>>) -> Result<
    Seq<(Seq<char>, Seq<Seq<char>>)>,
    GetNetInterfacesError,
> {
    if exists|i: int| 0 <= i < ms.len() && #[trigger] group(ms[i], 1) is None {
        Err(GetNetInterfacesError::NoNameForInterfaceFound)
    } else {
        Ok(Seq::new(ms.len(), |i: int| (group(ms[i], 1)->Some_0, addresses_of(ms[i]))))
    }
}

pub open spec fn found_view(v: Seq<(String, Vec<String>)>) -> Seq<(Seq<char>, Seq<Seq<char>>)> {
    v.map_values(|e: (String, Vec<String>)| (e.0@, e.1@.map_values(|a: String| a@)))
}

/// The group at `i` of `m`, copied.
fn group_at(m: &Vec<Option<String>>, i: usize) -> (r: Option<String>)
    ensures
        group_view(r) == group(m@.map_values(|g: Option<String>| group_view(g)), i as int),
{
    if i < m.len() {
        match &m[i] {
            Some(s) => Some(s.clone()),
            None => None,
        }
    } else {
        None
    }
}

/// Reads the interfaces out of the matches of the `ifconfig` pattern.
pub fn interfaces_from_captures(captures: &Vec<Vec<Option<String>>>) -> (r: Result<
    Vec<(String, Vec<String>)>,
    GetNetInterfacesError,
>)
    ensures
        match r {
            Ok(v) => interfaces_from(captures_view(captures@)) == Ok::<
                Seq<(Seq<char>, Seq<Seq<char>>)>,
                GetNetInterfacesError,
            >(found_view(v@)),
            Err(e) => interfaces_from(captures_view(captures@)) == Err::<
                Seq<(Seq<char>, Seq<Seq<char>>)>,
                GetNetInterfacesError,
            >(e),
        },
{
    let ghost ms = captures_view(captures@);
    let mut found: Vec<(String, Vec<String>)> = Vec::new();
    let mut i: usize = 0;
    while i < captures.len()
        invariant
            i <= captures@.len(),
            ms == captures_view(captures@),
            ms.len() == captures@.len(),
            found@.len() == i,
            forall|j: int| 0 <= j < i ==> #[trigger] group(ms[j], 1) is Some,
            forall|j: int|
                0 <= j < i ==> (#[trigger] found_view(found@)[j]) == (
                    group(ms[j], 1)->Some_0,
                    addresses_of(ms[j]),
                ),
        decreases captures@.len() - i,
    {
        let m = &captures[i];
        assert(ms[i as int] == m@.map_values(|g: Option<String>| group_view(g)));
        let name = match group_at(m, 1) {
            Some(n) => n,
            None => {
                return Err(GetNetInterfacesError::NoNameForInterfaceFound);
            },
        };
        let mut addresses: Vec<String> = Vec::new();
        match group_at(m, 2) {
            Some(a) => addresses.push(a),
            None => {},
        }
        match group_at(m, 3) {
            Some(a) => addresses.push(a),
            None => {},
        }
        assert(addresses@.map_values(|a: String| a@) =~= addresses_of(ms[i as int]));
        let ghost before = found@;
        let ghost entry = (name@, addresses@.map_values(|a: String| a@));
        assert(entry == (group(ms[i as int], 1)->Some_0, addresses_of(ms[i as int])));
        found.push((name, addresses));
        proof {
            assert forall|j: int| 0 <= j < i + 1 implies (#[trigger] found_view(found@)[j]) == (
                group(ms[j], 1)->Some_0,
                addresses_of(ms[j]),
            ) by {
                if j < i {
                    assert(found@[j] == before[j]);
                    assert(found_view(before)[j] == found_view(found@)[j]);
                } else {
                    assert(found_view(found@)[j] == entry);
                }
            }
        }
        i = i + 1;
    }
    assert(found_view(found@) =~= Seq::new(
        ms.len(),
        |j: int| (group(ms[j], 1)->Some_0, addresses_of(ms[j])),
    ));
    Ok(found)
}

/// Reads network interfaces from the output of `ifconfig -a`.
pub struct IfConfig {}

impl IfConfig {
    pub fn new() -> (r: IfConfig) {
        IfConfig {}
    }

    /// The program this reader runs.
    pub fn name(&self) -> (r: &'static str)
        ensures
            r@ == "ifconfig"@,
    {
        "ifconfig"
    }

    /// The interfaces described in `output`, in order, each with its address
    /// texts. `None` when the pattern is rejected.
    pub fn parse_output_fields(&self, output: &str) -> (r: Option<
        Result<Vec<(String, Vec<String>)>, GetNetInterfacesError>,
    >)
        ensures
            match r {
                None => regex_captures(IFCONFIG_PATTERN@, output@) is None,
                Some(Ok(v)) => regex_captures(IFCONFIG_PATTERN@, output@) matches Some(ms)
                    && interfaces_from(ms) == Ok::<
                    Seq<(Seq<char>, Seq<Seq<char>>)>,
                    GetNetInterfacesError,
                >(found_view(v@)),
                Some(Err(e)) => regex_captures(IFCONFIG_PATTERN@, output@) matches Some(ms)
                    && interfaces_from(ms) == Err::<
                    Seq<(Seq<char>, Seq<Seq<char>>)>,
                    GetNetInterfacesError,
                >(e),
            },
    {
        match captures_of(IFCONFIG_PATTERN, output) {
            None => None,
            Some(captures) => Some(interfaces_from_captures(&captures)),
        }
    }
}

} // verus!
