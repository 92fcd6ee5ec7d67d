use vstd::prelude::*;

verus! {

pub const SPACE: u8 = 32;

pub const NEWLINE: u8 = 10;

pub const SLASH: u8 = 47;

/// The letter `t`, last of `inet`.
pub const LETTER_T: u8 = 116;

/// The digit `6`, last of `inet6`.
pub const DIGIT_SIX: u8 = 54;

/// The first position at or after `from` that holds `b`, or the length when none does.
pub open spec fn first_byte(line: Seq<u8>, from: int, b: u8) -> int
    decreases line.len() - from,
{
    if from >= line.len() {
        line.len() as int
    } else if line[from] == b {
        from
    } else {
        first_byte(line, from + 1, b)
    }
}

/// The first position `j` at or after `from` where a name starts: the byte
/// before it is a space and it is not one. The length when there is none.
pub open spec fn name_start(line: Seq<u8>, from: int) -> int
    decreases line.len() - from,
{
    if from >= line.len() {
        line.len() as int
    } else if from >= 1 && line[from - 1] == SPACE && line[from] != SPACE {
        from
    } else {
        name_start(line, from + 1)
    }
}

/// The first position `j` at or after `from` of a space that follows `t` or
/// `6` (the end of `inet` or `inet6`). The length when there is none.
pub open spec fn address_marker(line: Seq<u8>, from: int) -> int
    decreases line.len() - from,
{
    if from >= line.len() {
        line.len() as int
    } else if from >= 1 && (line[from - 1] == LETTER_T || line[from - 1] == DIGIT_SIX)
        && line[from] == SPACE {
        from
    } else {
        address_marker(line, from + 1)
    }
}

/// The interface name read from `line` starting at `start`: the first run of
/// non-space bytes that follows a space after `start`.
pub open spec fn name_at(line: Seq<u8>, start: int) -> Seq<u8> {
    let s = name_start(line, start + 1);
    line.subrange(s, first_byte(line, s, SPACE))
}

/// Where reading continues after the name: just past the space that ends
/// it, or the end of the line.
pub open spec fn after_name(line: Seq<u8>, start: int) -> int {
    let e = first_byte(line, name_start(line, start + 1), SPACE);
    if e < line.len() {
        e + 1
    } else {
        line.len() as int
    }
}

/// The address read from `line` starting at `start`: the bytes after the
/// first `inet ` or `inet6 ` up to the next `/` or the end of the line.
pub open spec fn address_at(line: Seq<u8>, start: int) -> Seq<u8> {
    let m = address_marker(line, start + 1);
    if m < line.len() {
        line.subrange(m + 1, first_byte(line, m + 1, SLASH))
    } else {
        Seq::empty()
    }
}

/// The lines of `s` from `start` on, each with its closing newline; bytes after
/// the last newline are no line.
pub open spec fn lines_from(s: Seq<u8>, start: int) -> Seq<Seq<u8>>
    decreases s.len() - start
    via lines_from_decreases
{
    let e = first_byte(s, start, NEWLINE);
    if start < 0 || e >= s.len() {
        Seq::empty()
    } else {
        seq![s.subrange(start, e + 1)].add(lines_from(s, e + 1))
    }
}

#[via_fn]
proof fn lines_from_decreases(s: Seq<u8>, start: int) {
    if start >= 0 {
        lemma_first_byte_bounds(s, start, NEWLINE);
    }
}

proof fn lemma_first_byte_bounds(line: Seq<u8>, from: int, b: u8)
    requires
        0 <= from,
    ensures
        from <= first_byte(line, from, b) || (from > line.len() && first_byte(line, from, b)
            == line.len()),
        first_byte(line, from, b) <= line.len() || from > line.len(),
        first_byte(line, from, b) < line.len() ==> line[first_byte(line, from, b)] == b,
        forall|k: int| from <= k < first_byte(line, from, b) ==> line[k] != b,
    decreases line.len() - from,
{
    if from < line.len() && line[from] != b {
        lemma_first_byte_bounds(line, from + 1, b);
    }
}

proof fn lemma_name_start_bounds(line: Seq<u8>, from: int)
    requires
        0 <= from <= line.len(),
    ensures
        from <= name_start(line, from) <= line.len(),
    decreases line.len() - from,
{
    if from < line.len() && !(from >= 1 && line[from - 1] == SPACE && line[from] != SPACE) {
        lemma_name_start_bounds(line, from + 1);
    }
}

proof fn lemma_address_marker_bounds(line: Seq<u8>, from: int)
    requires
        0 <= from <= line.len(),
    ensures
        from <= address_marker(line, from) <= line.len(),
    decreases line.len() - from,
{
    if from < line.len() && !(from >= 1 && (line[from - 1] == LETTER_T || line[from - 1]
        == DIGIT_SIX) && line[from] == SPACE) {
        lemma_address_marker_bounds(line, from + 1);
    }
}

/// The first position at or after `from` that holds `b`, or the length.
pub fn find_byte(line: &Vec<u8>, from: usize, b: u8) -> (r: usize)
    ensures
        r == first_byte(line@, from as int, b) || (from > line@.len() && r == line@.len()),
        from <= line@.len() ==> from <= r <= line@.len(),
{
    if from >= line.len() {
        return line.len();
    }
    let mut i = from;
    while i < line.len()
        invariant
            from <= i <= line@.len(),
            first_byte(line@, from as int, b) == first_byte(line@, i as int, b),
        decreases line@.len() - i,
    {
        if line[i] == b {
            return i;
        }
        i = i + 1;
    }
    i
}

/// A copy of `line[from..to]`.
pub fn copy_range(line: &Vec<u8>, from: usize, to: usize) -> (r: Vec<u8>)
    requires
        from <= to <= line@.len(),
    ensures
        r@ == line@.subrange(from as int, to as int),
{
    let mut out: Vec<u8> = Vec::new();
    let mut i = from;
    while i < to
        invariant
            from <= i <= to <= line@.len(),
            out@ == line@.subrange(from as int, i as int),
        decreases to - i,
    {
        out.push(line[i]);
        i = i + 1;
        assert(out@ =~= line@.subrange(from as int, i as int));
    }
    out
}

/// Reads an interface name from `line` starting at `start`; returns it with
/// the position where reading continues.
pub fn parse_name(line: &Vec<u8>, start: usize) -> (r: (Vec<u8>, usize))
    requires
        start < line@.len(),
    ensures
        r.0@ == name_at(line@, start as int),
        r.1 == after_name(line@, start as int),
{
    let n = line.len();
    let mut j = start + 1;
    while j < n && !(line[j - 1] == SPACE && line[j] != SPACE)
        invariant
            n == line@.len(),
            start + 1 <= j <= n,
            name_start(line@, start + 1) == name_start(line@, j as int),
        decreases n - j,
    {
        j = j + 1;
    }
    proof {
        lemma_name_start_bounds(line@, j as int);
    }
    let e = find_byte(line, j, SPACE);
    let name = copy_range(line, j, e);
    let next = if e < line.len() {
        e + 1
    } else {
        line.len()
    };
    (name, next)
}

/// Reads the address from `line` starting at `start`.
pub fn parse_ip(line: &Vec<u8>, start: usize) -> (r: Vec<u8>)
    requires
        start <= line@.len(),
    ensures
        r@ == address_at(line@, start as int),
{
    let n = line.len();
    if start >= n {
        return Vec::new();
    }
    let mut j = start + 1;
    while j < n && !((line[j - 1] == LETTER_T || line[j - 1] == DIGIT_SIX) && line[j] == SPACE)
        invariant
            n == line@.len(),
            start + 1 <= j <= n,
            address_marker(line@, start + 1) == address_marker(line@, j as int),
        decreases n - j,
    {
        j = j + 1;
    }
    proof {
        lemma_address_marker_bounds(line@, j as int);
    }
    if j >= line.len() {
        return Vec::new();
    }
    let e = find_byte(line, j + 1, SLASH);
    copy_range(line, j + 1, e)
}

/// Reads the interface name and then the address from one line.
pub fn parse_line(line: &Vec<u8>) -> (r: (Vec<u8>, Vec<u8>))
    ensures
        line@.len() > 0 ==> r.0@ == name_at(line@, 0) && r.1@ == address_at(
            line@,
            after_name(line@, 0),
        ),
        line@.len() == 0 ==> r.0@.len() == 0 && r.1@.len() == 0,
{
    if line.len() == 0 {
        return (Vec::new(), Vec::new());
    }
    let (name, next) = parse_name(line, 0);
    proof {
        lemma_name_start_bounds(line@, 1);
        lemma_first_byte_bounds(line@, name_start(line@, 1), SPACE);
    }
    let address = parse_ip(line, next);
    (name, address)
}

/// Splits `output` into lines, each with its closing newline; bytes after the
/// last newline are dropped.
pub fn split_lines(output: &Vec<u8>) -> (r: Vec<Vec<u8>>)
    ensures
        r@.map_values(|l: Vec<u8>| l@) == lines_from(output@, 0),
{
    let mut lines: Vec<Vec<u8>> = Vec::new();
    let mut start: usize = 0;
    while start < output.len()
        invariant
            start <= output@.len(),
            lines@.map_values(|l: Vec<u8>| l@).add(lines_from(output@, start as int))
                == lines_from(output@, 0),
        decreases output@.len() - start,
    {
        let e = find_byte(output, start, NEWLINE);
        proof {
            lemma_first_byte_bounds(output@, start as int, NEWLINE);
        }
        if e >= output.len() {
            assert(lines_from(output@, start as int) =~= Seq::<Seq<u8>>::empty());
            assert(lines@.map_values(|l: Vec<u8>| l@).add(Seq::<Seq<u8>>::empty())
                =~= lines@.map_values(|l: Vec<u8>| l@));
            return lines;
        }
        let line = copy_range(output, start, e + 1);
        let ghost before = lines@.map_values(|l: Vec<u8>| l@);
        lines.push(line);
        assert(lines@.map_values(|l: Vec<u8>| l@) =~= before.push(line@));
        assert(lines_from(output@, start as int) == seq![line@].add(
            lines_from(output@, e + 1),
        ));
        assert(before.add(lines_from(output@, start as int)) =~= before.push(line@).add(
            lines_from(output@, e + 1),
        ));
        start = e + 1;
    }
    assert(lines_from(output@, start as int) =~= Seq::<Seq<u8>>::empty());
    assert(lines@.map_values(|l: Vec<u8>| l@).add(Seq::<Seq<u8>>::empty()) =~= lines@.map_values(
        |l: Vec<u8>| l@,
    ));
    lines
}

/// The fields of one line of `ip -o addr list`: its name and its address.
pub open spec fn line_fields(line: Seq<u8>) -> (Seq<u8>, Seq<u8>) {
    if line.len() == 0 {
        (Seq::empty(), Seq::empty())
    } else {
        (name_at(line, 0), address_at(line, after_name(line, 0)))
    }
}

/// Reads network interfaces from the output of `ip -o addr list`, which has
/// one address per line.
pub struct Ip {}

impl Ip {
    pub fn new() -> (r: Ip) {
        Ip {}
    }

    /// The program this reader runs.
    pub fn name(&self) -> (r: &'static str)
        ensures
            r@ == "ip"@,
    {
        "ip"
    }

    /// The (name, address) fields of each complete line of `output`, in order.
    pub fn parse_output_fields(&self, output: &Vec<u8>) -> (r: Vec<(Vec<u8>, Vec<u8>)>)
        ensures
            r@.len() == lines_from(output@, 0).len(),
            forall|i: int|
                0 <= i < r@.len() ==> (#[trigger] r@[i]).0@ == line_fields(
                    lines_from(output@, 0)[i],
                ).0 && r@[i].1@ == line_fields(lines_from(output@, 0)[i]).1,
    {
        let lines = split_lines(output);
        let ghost ls = lines_from(output@, 0);
        assert(lines@.len() == ls.len()) by {
            assert(lines@.map_values(|l: Vec<u8>| l@).len() == lines@.len());
        }
        let mut fields: Vec<(Vec<u8>, Vec<u8>)> = Vec::new();
        let mut i: usize = 0;
        while i < lines.len()
            invariant
                i <= lines@.len(),
                lines@.len() == ls.len(),
                lines@.map_values(|l: Vec<u8>| l@) == ls,
                fields@.len() == i,
                forall|k: int|
                    0 <= k < i ==> (#[trigger] fields@[k]).0@ == line_fields(ls[k]).0
                        && fields@[k].1@ == line_fields(ls[k]).1,
            decreases lines@.len() - i,
        {
            assert(lines@[i as int]@ == ls[i as int]) by {
                assert(lines@.map_values(|l: Vec<u8>| l@)[i as int] == lines@[i as int]@);
            }
            let f = parse_line(&lines[i]);
            fields.push(f);
            i = i + 1;
        }
        fields
    }
}

} // verus!
