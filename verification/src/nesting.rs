//! Nesting of compositors: recognising a window that holds a nested
//! compositor, naming the next nested display and the control sockets to
//! reach it by, and reading a window title out of a nested compositor's
//! compact layout listing.

use vstd::prelude::*;
use vstd::string::StringExecFns;
use crate::command::{arg_u32};
use crate::text::{
    chars_begin_with, chars_contain, chars_of, lowercase, occurs_in, parse_number, slice_chars,
    split_chars, split_on, to_lowercase, begins_with,
};

verus! {

/// A lowercased window title or application id names a nested compositor.
pub open spec fn spec_names_compositor(lower: Seq<char>) -> bool {
    occurs_in(lower, "smithay"@) || occurs_in(lower, "hier"@)
}

/// Whether a lowercased window title or application id names a nested
/// compositor.
pub fn names_compositor(lower: &[char]) -> (r: bool)
    ensures
        r == spec_names_compositor(lower@),
{
    let a = chars_of("smithay");
    let b = chars_of("hier");
    chars_contain(lower, a.as_slice()) || chars_contain(lower, b.as_slice())
}

/// A window holds a nested compositor when its title or its application id
/// names one, case aside.
pub open spec fn spec_is_nested_compositor(title: Option<Seq<char>>, app_id: Option<Seq<char>>) -> bool {
    (title is Some && spec_names_compositor(lowercase(title->0)))
        || (app_id is Some && spec_names_compositor(lowercase(app_id->0)))
}

fn names_compositor_any_case(s: &str) -> (r: bool)
    ensures
        r == spec_names_compositor(lowercase(s@)),
{
    let c = chars_of(s);
    let lower = to_lowercase(c.as_slice());
    names_compositor(lower.as_slice())
}

/// Whether a window with this title and application id holds a nested
/// compositor.
pub fn is_nested_compositor(title: Option<&str>, app_id: Option<&str>) -> (r: bool)
    ensures
        r == spec_is_nested_compositor(
            match title { Some(t) => Some(t@), None => None },
            match app_id { Some(a) => Some(a@), None => None },
        ),
{
    let t = match title {
        Some(t) => names_compositor_any_case(t),
        None => false,
    };
    if t {
        return true;
    }
    match app_id {
        Some(a) => names_compositor_any_case(a),
        None => false,
    }
}

/// The display number a nested compositor of display `socket` is guessed to
/// have: one more than the number of a `wayland-N` display.
pub open spec fn spec_next_display(socket: Seq<char>) -> Option<u32> {
    if begins_with(socket, "wayland-"@) {
        match arg_u32(socket.subrange(8, socket.len() as int)) {
            Some(n) => Some((n + 1) as u32),
            None => None,
        }
    } else {
        None
    }
}

/// The display number of the guessed nested compositor of display
/// `socket`, if `socket` is a `wayland-N` display.
pub fn next_display(socket: &str) -> (r: Option<u32>)
    requires
        !(begins_with(socket@, "wayland-"@) && arg_u32(socket@.subrange(8, socket@.len() as int)) == Some(u32::MAX)),
    ensures
        r == spec_next_display(socket@),
{
    let c = chars_of(socket);
    if !chars_begin_with(c.as_slice(), "wayland-") {
        return None;
    }
    proof {
        reveal_strlit("wayland-");
    }
    let rest = slice_chars(c.as_slice(), 8, c.len());
    match parse_number(rest.as_slice(), u32::MAX as u64) {
        Some(n) => Some((n as u32) + 1),
        None => None,
    }
}

/// `s` without one trailing carriage return.
pub open spec fn without_cr(s: Seq<char>) -> Seq<char> {
    if s.len() > 0 && s.last() == '\r' {
        s.drop_last()
    } else {
        s
    }
}

/// The lines of `s` as `str::lines` gives them: split at newlines, a
/// carriage return before a newline dropped, no line after a final newline.
pub open spec fn lines_of(s: Seq<char>) -> Seq<Seq<char>> {
    let p = split_on(s, '\n');
    let n = p.len();
    let count = if p[n - 1].len() == 0 { n - 1 } else { n as int };
    Seq::new(count as nat, |i: int| if i < n - 1 { without_cr(p[i]) } else { p[i] })
}

/// The lines of `s`.
pub fn text_lines(s: &[char]) -> (r: Vec<Vec<char>>)
    ensures
        r@.len() == lines_of(s@).len(),
        forall|k: int| 0 <= k < r@.len() ==> #[trigger] r@[k]@ == lines_of(s@)[k],
{
    let pieces = split_chars(s, '\n');
    proof {
        crate::text::lemma_split_nonempty(s@, '\n');
    }
    let n = pieces.len();
    let count = if pieces[n - 1].len() == 0 { n - 1 } else { n };
    let mut r: Vec<Vec<char>> = Vec::new();
    let mut i: usize = 0;
    while i < count
        invariant
            n == pieces@.len(),
            n == split_on(s@, '\n').len(),
            forall|k: int| 0 <= k < n ==> #[trigger] pieces@[k]@ == split_on(s@, '\n')[k],
            count == lines_of(s@).len(),
            count <= n,
            i <= count,
            r@.len() == i,
            forall|k: int| 0 <= k < i ==> #[trigger] r@[k]@ == lines_of(s@)[k],
        decreases count - i,
    {
        let p = pieces[i].as_slice();
        let line = if i + 1 < n && p.len() > 0 && p[p.len() - 1] == '\r' {
            slice_chars(p, 0, p.len() - 1)
        } else {
            slice_chars(p, 0, p.len())
        };
        proof {
            assert(p@ == split_on(s@, '\n')[i as int]);
            assert(p@.subrange(0, p@.len() as int) =~= p@);
            assert(p@.subrange(0, p@.len() - 1) =~= p@.drop_last());
        }
        r.push(line);
        i = i + 1;
    }
    r
}

/// The title that a compact layout listing gives for window `id`: field 5
/// of the first line whose field 2 is the number `id`, fields being
/// separated by colons (a line needs at least six fields).
pub open spec fn spec_listed_title(lines: Seq<Seq<char>>, id: u32) -> Option<Seq<char>>
    decreases lines.len(),
{
    if lines.len() == 0 {
        None
    } else {
        let f = split_on(lines[0], ':');
        if f.len() >= 6 && arg_u32(f[2]) == Some(id) {
            Some(f[5])
        } else {
            spec_listed_title(lines.drop_first(), id)
        }
    }
}

/// The title that a nested compositor's compact layout listing gives for
/// window `id`.
pub fn listed_title(listing: &str, id: u32) -> (r: Option<Vec<char>>)
    ensures
        match r {
            Some(t) => spec_listed_title(lines_of(listing@), id) == Some(t@),
            None => spec_listed_title(lines_of(listing@), id) is None,
        },
{
    let c = chars_of(listing);
    let lines = text_lines(c.as_slice());
    let ghost ls = lines_of(listing@);
    proof {
        assert(ls.subrange(0, ls.len() as int) =~= ls);
    }
    let mut i: usize = 0;
    while i < lines.len()
        invariant
            ls == lines_of(listing@),
            lines@.len() == ls.len(),
            forall|k: int| 0 <= k < ls.len() ==> #[trigger] lines@[k]@ == ls[k],
            i <= ls.len(),
            spec_listed_title(ls.subrange(i as int, ls.len() as int), id) == spec_listed_title(ls, id),
        decreases ls.len() - i,
    {
        let ghost rest = ls.subrange(i as int, ls.len() as int);
        let fields = split_chars(lines[i].as_slice(), ':');
        proof {
            assert(rest[0] == ls[i as int]);
            assert(rest.drop_first() =~= ls.subrange(i + 1, ls.len() as int));
        }
        if fields.len() >= 6 {
            proof {
                assert(fields@[2]@ == split_on(ls[i as int], ':')[2]);
                assert(fields@[5]@ == split_on(ls[i as int], ':')[5]);
            }
            match parse_number(fields[2].as_slice(), u32::MAX as u64) {
                Some(v) => if v as u32 == id {
                    return Some(slice_chars(fields[5].as_slice(), 0, fields[5].len()));
                },
                None => {},
            }
        }
        i = i + 1;
    }
    proof {
        assert(ls.subrange(i as int, ls.len() as int) =~= Seq::<Seq<char>>::empty());
    }
    None
}


/// The character of a decimal digit.
pub open spec fn digit_char(d: nat) -> char {
    if d == 0 {
        '0'
    } else if d == 1 {
        '1'
    } else if d == 2 {
        '2'
    } else if d == 3 {
        '3'
    } else if d == 4 {
        '4'
    } else if d == 5 {
        '5'
    } else if d == 6 {
        '6'
    } else if d == 7 {
        '7'
    } else if d == 8 {
        '8'
    } else {
        '9'
    }
}

/// The decimal numeral of `n`, without leading zeros.
pub open spec fn decimal(n: nat) -> Seq<char>
    decreases n,
{
    if n < 10 {
        seq![digit_char(n)]
    } else {
        decimal(n / 10).push(digit_char(n % 10))
    }
}

fn push_digit(s: &mut String, d: u32)
    requires
        d < 10,
    ensures
        final(s)@ == old(s)@.push(digit_char(d as nat)),
{
    proof {
        reveal_strlit("0");
        reveal_strlit("1");
        reveal_strlit("2");
        reveal_strlit("3");
        reveal_strlit("4");
        reveal_strlit("5");
        reveal_strlit("6");
        reveal_strlit("7");
        reveal_strlit("8");
        reveal_strlit("9");
    }
    let ghost before = s@;
    if d == 0 {
        s.append("0");
    } else if d == 1 {
        s.append("1");
    } else if d == 2 {
        s.append("2");
    } else if d == 3 {
        s.append("3");
    } else if d == 4 {
        s.append("4");
    } else if d == 5 {
        s.append("5");
    } else if d == 6 {
        s.append("6");
    } else if d == 7 {
        s.append("7");
    } else if d == 8 {
        s.append("8");
    } else {
        s.append("9");
    }
    assert(s@ =~= before.push(digit_char(d as nat)));
}

/// The decimal numeral of `n`.
pub fn decimal_string(n: u32) -> (r: String)
    ensures
        r@ == decimal(n as nat),
    decreases n,
{
    if n < 10 {
        let mut s = String::new();
        push_digit(&mut s, n);
        proof {
            assert(s@ =~= seq![digit_char(n as nat)]);
        }
        s
    } else {
        let mut s = decimal_string(n / 10);
        push_digit(&mut s, n % 10);
        s
    }
}

/// The control socket of the compositor on display `display`.
pub open spec fn control_socket(display: Seq<char>) -> Seq<char> {
    "/tmp/hier-ctrl-"@ + display + ".sock"@
}

/// The control socket of the compositor on display `display`.
pub fn control_socket_path(display: &str) -> (r: String)
    ensures
        r@ == control_socket(display@),
{
    let mut path = String::from_str("/tmp/hier-ctrl-");
    path.append(display);
    path.append(".sock");
    path
}

/// The control sockets a nested compositor is sought at, in order: that of
/// the child display registered, if any, then that of the display guessed
/// to follow `socket`.
pub open spec fn child_sockets(child: Option<Seq<char>>, socket: Seq<char>) -> Seq<Seq<char>> {
    let first = match child {
        Some(c) => seq![control_socket(c)],
        None => Seq::empty(),
    };
    match spec_next_display(socket) {
        Some(n) => first.push(control_socket("wayland-"@ + decimal(n as nat))),
        None => first,
    }
}

/// The control sockets a nested compositor of display `socket` is sought
/// at, `child` being the child display registered.
pub fn child_control_sockets(child: Option<&str>, socket: &str) -> (r: Vec<String>)
    requires
        !(begins_with(socket@, "wayland-"@) && arg_u32(socket@.subrange(8, socket@.len() as int)) == Some(u32::MAX)),
    ensures
        r@.map_values(|p: String| p@) == child_sockets(
            match child {
                Some(c) => Some(c@),
                None => None,
            },
            socket@,
        ),
{
    let mut r: Vec<String> = Vec::new();
    match child {
        Some(c) => r.push(control_socket_path(c)),
        None => {},
    }
    let ghost first = r@.map_values(|p: String| p@);
    match next_display(socket) {
        Some(n) => {
            let mut name = String::from_str("wayland-");
            let digits = decimal_string(n);
            name.append(digits.as_str());
            let path = control_socket_path(name.as_str());
            r.push(path);
            proof {
                assert(r@.map_values(|p: String| p@) =~= first.push(path@));
            }
        },
        None => {},
    }
    proof {
        let want = child_sockets(
            match child {
                Some(c) => Some(c@),
                None => None,
            },
            socket@,
        );
        assert(r@.map_values(|p: String| p@) =~= want);
    }
    r
}

} // verus!
