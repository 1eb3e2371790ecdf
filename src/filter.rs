use vstd::prelude::*;
use vstd::string::*;

verus! {

/// The lowercase form of a text, as Unicode defines it.
pub uninterp spec fn lower_of(s: Seq<char>) -> Seq<char>;

/// Whether `c` has the Unicode White_Space property.
pub open spec fn is_white_space(c: char) -> bool {
    let u = c as u32;
    (0x9 <= u <= 0xD) || u == 0x20 || u == 0x85 || u == 0xA0 || u == 0x1680 || (0x2000 <= u
        <= 0x200A) || u == 0x2028 || u == 0x2029 || u == 0x202F || u == 0x205F || u == 0x3000
}

/// A text without its leading white space.
pub open spec fn trim_start_of(s: Seq<char>) -> Seq<char>
    decreases s.len(),
{
    if s.len() > 0 && is_white_space(s[0]) {
        trim_start_of(s.drop_first())
    } else {
        s
    }
}

/// A text without its trailing white space.
pub open spec fn trim_end_of(s: Seq<char>) -> Seq<char>
    decreases s.len(),
{
    if s.len() > 0 && is_white_space(s.last()) {
        trim_end_of(s.drop_last())
    } else {
        s
    }
}

/// A text without its leading and trailing Unicode white space.
pub open spec fn trim_of(s: Seq<char>) -> Seq<char> {
    trim_end_of(trim_start_of(s))
}

/// Relies on `str::to_lowercase`: the result depends on the text alone.
#[verifier::external_body]
fn lowercase(s: &str) -> (r: String)
    ensures
        r@ == lower_of(s@),
{
    s.to_lowercase()
}

/// Relies on `str::trim`: the text with leading and trailing characters of
/// the Unicode White_Space property removed.
#[verifier::external_body]
pub(crate) fn trimmed(s: &str) -> (r: &str)
    ensures
        r@ == trim_of(s@),
{
    s.trim()
}

/// The pieces of `s` between occurrences of `sep`, in order; a text without
/// `sep` is a single piece, and the empty text is one empty piece.
pub open spec fn split_on(s: Seq<char>, sep: char) -> Seq<Seq<char>>
    decreases s.len(),
{
    if s.len() == 0 {
        seq![Seq::<char>::empty()]
    } else {
        let prev = split_on(s.drop_last(), sep);
        if s.last() == sep {
            prev.push(Seq::<char>::empty())
        } else {
            prev.update(prev.len() - 1, prev.last().push(s.last()))
        }
    }
}

/// The abstract content of a list of names.
pub open spec fn names(v: Vec<String>) -> Seq<Seq<char>> {
    v@.map_values(|s: String| s@)
}

pub open spec fn opt_names(v: Option<Vec<String>>) -> Option<Seq<Seq<char>>> {
    match v {
        Some(l) => Some(names(l)),
        None => None,
    }
}

/// The folder-name set written as a comma-separated list: each entry
/// trimmed and lowercased.
pub open spec fn folder_set_of(list: Seq<char>) -> Seq<Seq<char>> {
    split_on(list, ',').map_values(|p: Seq<char>| lower_of(trim_of(p)))
}

/// The scope rule: a folder whose lowercase name is `name` is selected when
/// no wanted set is given or the wanted set holds it, and the unwanted set,
/// if given, does not hold it.
pub open spec fn scope_rule(
    name: Seq<char>,
    wanted: Option<Seq<Seq<char>>>,
    unwanted: Option<Seq<Seq<char>>>,
) -> bool {
    let included = match wanted {
        Some(set) => set.contains(name),
        None => true,
    };
    let excluded = match unwanted {
        Some(set) => set.contains(name),
        None => false,
    };
    included && !excluded
}

/// Splits `s` at every comma.
pub fn split_commas(s: &str) -> (r: Vec<String>)
    ensures
        names(r) == split_on(s@, ','),
{
    let n = s.unicode_len();
    let mut pieces: Vec<String> = Vec::new();
    let mut start: usize = 0;
    let mut i: usize = 0;
    proof {
        assert(s@.subrange(0, 0) =~= Seq::<char>::empty());
        assert(names(pieces).push(s@.subrange(0, 0)) =~= seq![Seq::<char>::empty()]);
    }
    while i < n
        invariant
            n == s@.len(),
            start <= i <= n,
            split_on(s@.subrange(0, i as int), ',') == names(pieces).push(
                s@.subrange(start as int, i as int),
            ),
        decreases n - i,
    {
        let c = s.get_char(i);
        proof {
            assert(s@.subrange(0, i + 1).drop_last() =~= s@.subrange(0, i as int));
        }
        if c == ',' {
            let piece = s.substring_char(start, i).to_owned();
            let ghost before = names(pieces);
            pieces.push(piece);
            proof {
                assert(names(pieces) =~= before.push(s@.subrange(start as int, i as int)));
                assert(s@.subrange(i + 1, i + 1) =~= Seq::<char>::empty());
            }
            start = i + 1;
        } else {
            proof {
                assert(s@.subrange(start as int, i + 1) =~= s@.subrange(start as int, i as int).push(c));
                assert(names(pieces).push(s@.subrange(start as int, i as int)).update(
                    names(pieces).len() as int,
                    s@.subrange(start as int, i + 1),
                ) =~= names(pieces).push(s@.subrange(start as int, i + 1)));
            }
        }
        i = i + 1;
    }
    let last = s.substring_char(start, n).to_owned();
    let ghost before = names(pieces);
    pieces.push(last);
    proof {
        assert(s@.subrange(0, n as int) =~= s@);
        assert(names(pieces) =~= before.push(s@.subrange(start as int, n as int)));
    }
    pieces
}

/// Reads a comma-separated folder list into the set of lowercase names it
/// holds, each entry trimmed.
pub fn parse_folder_list(list: &str) -> (r: Vec<String>)
    ensures
        names(r) == folder_set_of(list@),
{
    let pieces = split_commas(list);
    let mut out: Vec<String> = Vec::new();
    let mut i: usize = 0;
    while i < pieces.len()
        invariant
            i <= pieces@.len(),
            names(pieces) == split_on(list@, ','),
            names(out) == names(pieces).subrange(0, i as int).map_values(
                |p: Seq<char>| lower_of(trim_of(p)),
            ),
        decreases pieces@.len() - i,
    {
        let t = trimmed(pieces[i].as_str());
        let l = lowercase(t);
        let ghost before = names(out);
        out.push(l);
        proof {
            assert(names(out) =~= before.push(l@));
            assert(names(pieces).subrange(0, i + 1).map_values(|p: Seq<char>| lower_of(trim_of(p)))
                =~= names(pieces).subrange(0, i as int).map_values(
                |p: Seq<char>| lower_of(trim_of(p)),
            ).push(l@));
        }
        i = i + 1;
    }
    proof {
        assert(names(pieces).subrange(0, i as int) =~= names(pieces));
    }
    out
}

/// The folder set an optional comma-separated list describes.
pub fn folder_set(list: &Option<String>) -> (r: Option<Vec<String>>)
    ensures
        opt_names(r) == match list {
            Some(l) => Some(folder_set_of(l@)),
            None => None::<Seq<Seq<char>>>,
        },
{
    match list {
        Some(l) => Some(parse_folder_list(l.as_str())),
        None => None,
    }
}

pub(crate) fn holds(set: &Vec<String>, name: &String) -> (r: bool)
    ensures
        r == names(*set).contains(name@),
{
    let mut i: usize = 0;
    while i < set.len()
        invariant
            i <= set@.len(),
            forall|j: int| 0 <= j < i ==> set@[j]@ != name@,
        decreases set@.len() - i,
    {
        if set[i] == *name {
            proof {
                assert(names(*set)[i as int] == name@);
            }
            return true;
        }
        i = i + 1;
    }
    proof {
        if names(*set).contains(name@) {
            let k = choose|k: int| 0 <= k < names(*set).len() && names(*set)[k] == name@;
            assert(set@[k]@ == name@);
        }
    }
    false
}

/// Applies the scope rule to a folder name that is already lowercase.
pub fn in_scope_lowered(
    name: &String,
    wanted: &Option<Vec<String>>,
    unwanted: &Option<Vec<String>>,
) -> (r: bool)
    ensures
        r == scope_rule(name@, opt_names(*wanted), opt_names(*unwanted)),
{
    let included = match wanted {
        Some(set) => holds(set, name),
        None => true,
    };
    let excluded = match unwanted {
        Some(set) => holds(set, name),
        None => false,
    };
    included && !excluded
}

/// Whether the folder named `folder_name` is in scope, the name compared
/// without regard to case against sets of lowercase names.
pub fn in_scope(
    folder_name: &str,
    wanted: &Option<Vec<String>>,
    unwanted: &Option<Vec<String>>,
) -> (r: bool)
    ensures
        r == scope_rule(lower_of(folder_name@), opt_names(*wanted), opt_names(*unwanted)),
{
    let lowered = lowercase(folder_name);
    in_scope_lowered(&lowered, wanted, unwanted)
}

} // verus!
