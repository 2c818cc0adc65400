//! Reading an os-release file: splitting it into lines, reading each
//! `KEY=VALUE` line, and looking up the distribution it describes.

use vstd::prelude::*;
use vstd::string::*;
use crate::text::{
    find_char, find_char_index, is_white_space, lemma_find_char_after, lemma_find_char_bounds,
    str_equal, trim, trim_end, trim_start, trim_str,
};

verus! {

/// A line without the carriage return that ends it, if one does.
pub open spec fn strip_cr(l: Seq<char>) -> Seq<char> {
    if l.len() > 0 && l.last() == '\r' {
        l.drop_last()
    } else {
        l
    }
}

/// The lines of `s`, given the characters `cur` of the line read so far:
/// a line ends at `\n` (an `\r` just before it is dropped), and a last line
/// without `\n` counts only if it is not empty.
pub open spec fn lines_from(s: Seq<char>, cur: Seq<char>) -> Seq<Seq<char>>
    decreases s.len(),
{
    if s.len() == 0 {
        if cur.len() == 0 {
            seq![]
        } else {
            seq![cur]
        }
    } else if s[0] == '\n' {
        seq![strip_cr(cur)] + lines_from(s.drop_first(), seq![])
    } else {
        lines_from(s.drop_first(), cur.push(s[0]))
    }
}

/// The lines of `s`, as `str::lines` yields them.
pub open spec fn lines_of(s: Seq<char>) -> Seq<Seq<char>> {
    lines_from(s, seq![])
}

/// A value without the double quotes that surround it, if both ends hold one.
pub open spec fn unquote(v: Seq<char>) -> Seq<char> {
    if v.len() > 0 && v[0] == '"' && v.last() == '"' {
        v.subrange(1, v.len() - 1)
    } else {
        v
    }
}

/// The value part of a line: what follows the first `=`, trimmed.
pub open spec fn raw_value(line: Seq<char>) -> Seq<char> {
    trim(line.subrange(find_char(line, '=') + 1, line.len() as int))
}

/// A line can be read: it has no `=`, or its trimmed value is not a lone `"`
/// (whose quotes cannot be removed).
pub open spec fn line_readable(line: Seq<char>) -> bool {
    find_char(line, '=') < line.len() ==> raw_value(line) != seq!['"']
}

/// What a line says: `None` for a line without `=`; otherwise the trimmed
/// text before the first `=` and the trimmed, unquoted text after it.
pub open spec fn parse_line(line: Seq<char>) -> Option<(Seq<char>, Seq<char>)> {
    let k = find_char(line, '=');
    if k == line.len() {
        None
    } else {
        Some((trim(line.subrange(0, k)), unquote(raw_value(line))))
    }
}

/// The pairs that a sequence of lines holds, in order.
pub open spec fn parse_lines(ls: Seq<Seq<char>>) -> Seq<(Seq<char>, Seq<char>)>
    decreases ls.len(),
{
    if ls.len() == 0 {
        seq![]
    } else {
        match parse_line(ls[0]) {
            Some(p) => seq![p] + parse_lines(ls.drop_first()),
            None => parse_lines(ls.drop_first()),
        }
    }
}

/// Every line of the text can be read.
pub open spec fn release_readable(text: Seq<char>) -> bool {
    forall|i: int| 0 <= i < lines_of(text).len() ==> line_readable(#[trigger] lines_of(text)[i])
}

/// The lines joined again, each followed by a line break.
pub open spec fn join_lines(ls: Seq<Seq<char>>) -> Seq<char>
    decreases ls.len(),
{
    if ls.len() == 0 {
        seq![]
    } else {
        ls[0] + seq!['\n'] + join_lines(ls.drop_first())
    }
}

proof fn lemma_lines_from_shape(s: Seq<char>, cur: Seq<char>)
    requires
        !cur.contains('\n'),
    ensures
        forall|i: int|
            0 <= i < lines_from(s, cur).len() ==> !(#[trigger] lines_from(s, cur)[i]).contains('\n'),
        !s.contains('\r') && !cur.contains('\r') && ((s.len() == 0 && cur.len() == 0) || (s.len()
            > 0 && s.last() == '\n')) ==> join_lines(lines_from(s, cur)) == cur + s,
    decreases s.len(),
{
    if s.len() == 0 {
        if cur.len() > 0 {
            assert(lines_from(s, cur) =~= seq![cur]);
        }
    } else if s[0] == '\n' {
        let rest = s.drop_first();
        lemma_lines_from_shape(rest, seq![]);
        let l0 = strip_cr(cur);
        let ls = lines_from(s, cur);
        let tail = lines_from(rest, seq![]);
        assert(ls == seq![l0] + tail);
        assert(!l0.contains('\n')) by {
            if l0.contains('\n') {
                let j = choose|j: int| 0 <= j < l0.len() && l0[j] == '\n';
                assert(cur[j] == '\n');
            }
        }
        assert forall|i: int| 0 <= i < ls.len() implies !(#[trigger] ls[i]).contains('\n') by {
            if i > 0 {
                assert(ls[i] == tail[i - 1]);
            }
        }
        if !s.contains('\r') && !cur.contains('\r') && s.last() == '\n' {
            assert(!rest.contains('\r')) by {
                if rest.contains('\r') {
                    let j = choose|j: int| 0 <= j < rest.len() && rest[j] == '\r';
                    assert(s[j + 1] == '\r');
                }
            }
            if cur.len() > 0 {
                assert(cur.contains(cur.last()));
            }
            assert(l0 == cur);
            assert(ls[0] == cur);
            assert(ls.drop_first() =~= tail);
            if rest.len() > 0 {
                assert(rest.last() == s.last());
            }
            assert(cur + seq!['\n'] + rest =~= cur + s);
        }
    } else {
        let rest = s.drop_first();
        let c2 = cur.push(s[0]);
        assert(!c2.contains('\n')) by {
            if c2.contains('\n') {
                let j = choose|j: int| 0 <= j < c2.len() && c2[j] == '\n';
                if j < cur.len() {
                    assert(cur[j] == '\n');
                }
            }
        }
        lemma_lines_from_shape(rest, c2);
        if !s.contains('\r') && !cur.contains('\r') && s.len() > 0 && s.last() == '\n' {
            assert(rest.len() > 0);
            assert(rest.last() == s.last());
            assert(!rest.contains('\r')) by {
                if rest.contains('\r') {
                    let j = choose|j: int| 0 <= j < rest.len() && rest[j] == '\r';
                    assert(s[j + 1] == '\r');
                }
            }
            assert(!c2.contains('\r')) by {
                assert(s.contains(s[0]));
                if c2.contains('\r') {
                    let j = choose|j: int| 0 <= j < c2.len() && c2[j] == '\r';
                    if j < cur.len() {
                        assert(cur[j] == '\r');
                    }
                }
            }
            assert(c2 + rest =~= cur + s);
        }
    }
}

/// Splitting into lines loses no characters and keeps line breaks out of the
/// lines: no line holds `\n`, and a text without carriage returns whose last
/// character is a line break is exactly its lines, each followed by one.
pub proof fn law_lines_rejoin(s: Seq<char>)
    ensures
        forall|i: int| 0 <= i < lines_of(s).len() ==> !(#[trigger] lines_of(s)[i]).contains('\n'),
        !s.contains('\r') && (s.len() == 0 || s.last() == '\n') ==> join_lines(lines_of(s)) == s,
{
    lemma_lines_from_shape(s, seq![]);
    assert(Seq::<char>::empty() + s =~= s);
}

/// The key-value pairs of an os-release text, in the order of its lines.
pub open spec fn release_pairs(text: Seq<char>) -> Seq<(Seq<char>, Seq<char>)> {
    parse_lines(lines_of(text))
}

pub open spec fn string_views(v: Seq<String>) -> Seq<Seq<char>> {
    v.map_values(|l: String| l@)
}

pub open spec fn pair_view(p: (String, String)) -> (Seq<char>, Seq<char>) {
    (p.0@, p.1@)
}

pub open spec fn pairs_view(v: Seq<(String, String)>) -> Seq<(Seq<char>, Seq<char>)> {
    v.map_values(|p: (String, String)| pair_view(p))
}

/// The lines of `text`, as `str::lines` yields them.
pub fn split_lines(text: &str) -> (r: Vec<String>)
    ensures
        string_views(r@) == lines_of(text@),
{
    let n = text.unicode_len();
    let mut out: Vec<String> = Vec::new();
    let mut start: usize = 0;
    let mut i: usize = 0;
    assert(text@.subrange(0, n as int) =~= text@);
    assert(text@.subrange(0, 0) =~= Seq::<char>::empty());
    while i < n
        invariant
            n == text@.len(),
            start <= i <= n,
            lines_of(text@) == string_views(out@) + lines_from(
                text@.subrange(i as int, n as int),
                text@.subrange(start as int, i as int),
            ),
        decreases n - i,
    {
        let ghost rest = text@.subrange(i as int, n as int);
        let ghost cur = text@.subrange(start as int, i as int);
        assert(rest.drop_first() =~= text@.subrange(i + 1, n as int));
        let c = text.get_char(i);
        if c == '\n' {
            let end = if i > start && text.get_char(i - 1) == '\r' {
                i - 1
            } else {
                i
            };
            let line = String::from_str(text.substring_char(start, end));
            assert(line@ == strip_cr(cur)) by {
                if i > start && cur.last() == '\r' {
                    assert(cur.drop_last() =~= text@.subrange(start as int, i - 1));
                }
            }
            let ghost before = string_views(out@);
            out.push(line);
            assert(string_views(out@) =~= before + seq![line@]);
            start = i + 1;
            i = i + 1;
            assert(text@.subrange(start as int, i as int) =~= Seq::<char>::empty());
        } else {
            assert(cur.push(c) =~= text@.subrange(start as int, i + 1));
            i = i + 1;
        }
    }
    assert(text@.subrange(n as int, n as int) =~= Seq::<char>::empty());
    if start < n {
        let line = String::from_str(text.substring_char(start, n));
        let ghost before = string_views(out@);
        out.push(line);
        assert(string_views(out@) =~= before + seq![line@]);
    } else {
        assert(string_views(out@) + Seq::<Seq<char>>::empty() =~= string_views(out@));
    }
    out
}

/// `v` without surrounding double quotes; a lone `"` is not accepted.
fn unquote_str(v: &str) -> (r: &str)
    requires
        v@ != seq!['"'],
    ensures
        r@ == unquote(v@),
{
    let n = v.unicode_len();
    if n > 0 && v.get_char(0) == '"' && v.get_char(n - 1) == '"' {
        if n == 1 {
            assert(v@ =~= seq!['"']);
        }
        v.substring_char(1, n - 1)
    } else {
        v
    }
}

/// Whether a line can be read: see `line_readable`.
pub fn line_is_readable(line: &str) -> (b: bool)
    ensures
        b == line_readable(line@),
{
    let n = line.unicode_len();
    let k = find_char_index(line, '=');
    proof {
        lemma_find_char_bounds(line@, '=');
    }
    if k == n {
        return true;
    }
    let raw = trim_str(line.substring_char(k + 1, n));
    if raw.unicode_len() == 1 && raw.get_char(0) == '"' {
        assert(raw@ =~= seq!['"']);
        false
    } else {
        true
    }
}

/// The key and value that a line holds, or `None` for a line without `=`.
pub fn parse_release_line(line: &str) -> (r: Option<(String, String)>)
    requires
        line_readable(line@),
    ensures
        r matches Some(p) ==> parse_line(line@) == Some(pair_view(p)),
        r is None ==> parse_line(line@) is None,
{
    let n = line.unicode_len();
    let k = find_char_index(line, '=');
    proof {
        lemma_find_char_bounds(line@, '=');
    }
    if k == n {
        return None;
    }
    let key = trim_str(line.substring_char(0, k));
    let raw = trim_str(line.substring_char(k + 1, n));
    let value = unquote_str(raw);
    Some((String::from_str(key), String::from_str(value)))
}

/// Whether every line of an os-release text can be read.
pub fn release_is_readable(text: &str) -> (b: bool)
    ensures
        b == release_readable(text@),
{
    let lines = split_lines(text);
    let ghost ls = string_views(lines@);
    let mut i: usize = 0;
    while i < lines.len()
        invariant
            ls == string_views(lines@),
            ls == lines_of(text@),
            i <= lines.len(),
            forall|j: int| 0 <= j < i ==> line_readable(#[trigger] ls[j]),
        decreases lines.len() - i,
    {
        assert(ls[i as int] == lines[i as int]@);
        if !line_is_readable(lines[i].as_str()) {
            return false;
        }
        i = i + 1;
    }
    true
}

/// The key-value pairs of an os-release text, in the order of its lines:
/// lines without `=` are skipped; keys and values are trimmed, and a value
/// in double quotes loses them.
pub fn parse_os_release(text: &str) -> (r: Vec<(String, String)>)
    requires
        release_readable(text@),
    ensures
        pairs_view(r@) == release_pairs(text@),
{
    let lines = split_lines(text);
    let ghost ls = string_views(lines@);
    let mut out: Vec<(String, String)> = Vec::new();
    let mut i: usize = 0;
    assert(ls.subrange(0, ls.len() as int) =~= ls);
    while i < lines.len()
        invariant
            ls == string_views(lines@),
            ls == lines_of(text@),
            release_readable(text@),
            i <= lines.len(),
            parse_lines(ls) == pairs_view(out@) + parse_lines(ls.subrange(i as int, ls.len() as int)),
        decreases lines.len() - i,
    {
        let ghost rest = ls.subrange(i as int, ls.len() as int);
        assert(rest[0] == lines[i as int]@);
        assert(rest.drop_first() =~= ls.subrange(i + 1, ls.len() as int));
        assert(line_readable(ls[i as int]));
        match parse_release_line(lines[i].as_str()) {
            Some(p) => {
                let ghost before = pairs_view(out@);
                out.push(p);
                assert(pairs_view(out@) =~= before + seq![pair_view(p)]);
                assert(before + seq![pair_view(p)] + parse_lines(rest.drop_first())
                    =~= before + (seq![pair_view(p)] + parse_lines(rest.drop_first())));
            },
            None => {},
        }
        i = i + 1;
    }
    assert(pairs_view(out@) + Seq::<(Seq<char>, Seq<char>)>::empty() =~= pairs_view(out@));
    out
}

/// The value of the last pair whose key is `key`, or the empty string.
pub open spec fn last_value(pairs: Seq<(Seq<char>, Seq<char>)>, key: Seq<char>) -> Seq<char>
    decreases pairs.len(),
{
    if pairs.len() == 0 {
        seq![]
    } else if pairs.last().0 == key {
        pairs.last().1
    } else {
        last_value(pairs.drop_last(), key)
    }
}

/// The distribution an os-release describes: `ID_LIKE` when it is set and
/// not empty, else `ID` when it is, else `unknown`.
pub open spec fn distro_id_of(pairs: Seq<(Seq<char>, Seq<char>)>) -> Seq<char> {
    let like = last_value(pairs, "ID_LIKE"@);
    let id = last_value(pairs, "ID"@);
    if like.len() > 0 {
        like
    } else if id.len() > 0 {
        id
    } else {
        "unknown"@
    }
}

/// A lookup finds only pairs whose key is exactly the key asked for: with no
/// such pair it finds the empty string, and otherwise it finds the value of
/// the last such pair, whatever pairs with other keys come after it.
pub proof fn law_last_value_is_last_exact_match(
    pairs: Seq<(Seq<char>, Seq<char>)>,
    key: Seq<char>,
)
    ensures
        (forall|i: int| 0 <= i < pairs.len() ==> #[trigger] pairs[i].0 != key) ==> last_value(
            pairs,
            key,
        ) == Seq::<char>::empty(),
        forall|i: int|
            #![trigger pairs[i]]
            0 <= i < pairs.len() && pairs[i].0 == key && (forall|j: int|
                i < j < pairs.len() ==> #[trigger] pairs[j].0 != key) ==> last_value(pairs, key)
                == pairs[i].1,
    decreases pairs.len(),
{
    if pairs.len() > 0 {
        let prev = pairs.drop_last();
        law_last_value_is_last_exact_match(prev, key);
        let n = pairs.len() - 1;
        if (forall|i: int| 0 <= i < pairs.len() ==> #[trigger] pairs[i].0 != key) {
            assert(pairs[n].0 != key);
            assert forall|i: int| 0 <= i < prev.len() implies #[trigger] prev[i].0 != key by {
                assert(prev[i] == pairs[i]);
            }
        }
        assert forall|i: int|
            #![trigger pairs[i]]
            0 <= i < pairs.len() && pairs[i].0 == key && (forall|j: int|
                i < j < pairs.len() ==> #[trigger] pairs[j].0 != key) implies last_value(
            pairs,
            key,
        ) == pairs[i].1 by {
            if i < n {
                assert(pairs[n].0 != key);
                assert(prev[i] == pairs[i]);
                assert forall|j: int| i < j < prev.len() implies #[trigger] prev[j].0 != key by {
                    assert(prev[j] == pairs[j]);
                }
            }
        }
    }
}

/// The distribution is named by the last `ID_LIKE` pair when its value is
/// not empty; failing that, by the last `ID` pair when its value is not
/// empty; failing both, it is `unknown`.
pub proof fn law_distro_id_choice(pairs: Seq<(Seq<char>, Seq<char>)>, i: int, j: int)
    requires
        -1 <= i < pairs.len(),
        -1 <= j < pairs.len(),
        i >= 0 ==> pairs[i].0 == "ID_LIKE"@,
        forall|k: int| i < k < pairs.len() ==> #[trigger] pairs[k].0 != "ID_LIKE"@,
        j >= 0 ==> pairs[j].0 == "ID"@,
        forall|k: int| j < k < pairs.len() ==> #[trigger] pairs[k].0 != "ID"@,
    ensures
        i >= 0 && pairs[i].1.len() > 0 ==> distro_id_of(pairs) == pairs[i].1,
        (i < 0 || pairs[i].1.len() == 0) && j >= 0 && pairs[j].1.len() > 0 ==> distro_id_of(pairs)
            == pairs[j].1,
        (i < 0 || pairs[i].1.len() == 0) && (j < 0 || pairs[j].1.len() == 0) ==> distro_id_of(pairs)
            == "unknown"@,
{
    law_last_value_is_last_exact_match(pairs, "ID_LIKE"@);
    law_last_value_is_last_exact_match(pairs, "ID"@);
    if i >= 0 {
        assert(pairs[i].0 == "ID_LIKE"@);
    }
    if j >= 0 {
        assert(pairs[j].0 == "ID"@);
    }
}

/// The value of the last pair with key `key`, or the empty string.
pub fn lookup_last(pairs: &Vec<(String, String)>, key: &str) -> (r: String)
    ensures
        r@ == last_value(pairs_view(pairs@), key@),
        (forall|i: int| 0 <= i < pairs@.len() ==> #[trigger] pairs@[i].0@ != key@) ==> r@
            == Seq::<char>::empty(),
        forall|i: int|
            #![trigger pairs@[i]]
            0 <= i < pairs@.len() && pairs@[i].0@ == key@ && (forall|j: int|
                i < j < pairs@.len() ==> #[trigger] pairs@[j].0@ != key@) ==> r@ == pairs@[i].1@,
{
    proof {
        let pv = pairs_view(pairs@);
        law_last_value_is_last_exact_match(pv, key@);
        assert forall|i: int| 0 <= i < pairs@.len() implies #[trigger] pv[i] == pair_view(
            pairs@[i],
        ) by {}
        if forall|i: int| 0 <= i < pairs@.len() ==> #[trigger] pairs@[i].0@ != key@ {
            assert forall|i: int| 0 <= i < pv.len() implies #[trigger] pv[i].0 != key@ by {
                assert(pv[i] == pair_view(pairs@[i]));
            }
        }
        assert forall|i: int|
            #![trigger pairs@[i]]
            0 <= i < pairs@.len() && pairs@[i].0@ == key@ && (forall|j: int|
                i < j < pairs@.len() ==> #[trigger] pairs@[j].0@ != key@) implies last_value(
            pv,
            key@,
        ) == pairs@[i].1@ by {
            assert(pv[i] == pair_view(pairs@[i]));
            assert forall|j: int| i < j < pv.len() implies #[trigger] pv[j].0 != key@ by {
                assert(pv[j] == pair_view(pairs@[j]));
            }
        }
    }
    let ghost pv = pairs_view(pairs@);
    let mut found = String::new();
    let mut i: usize = 0;
    assert(pv.subrange(0, 0) =~= Seq::<(Seq<char>, Seq<char>)>::empty());
    while i < pairs.len()
        invariant
            pv == pairs_view(pairs@),
            i <= pairs.len(),
            found@ == last_value(pv.subrange(0, i as int), key@),
        decreases pairs.len() - i,
    {
        assert(pv.subrange(0, i + 1).drop_last() =~= pv.subrange(0, i as int));
        assert(pv.subrange(0, i + 1).last() == pair_view(pairs[i as int]));
        if str_equal(pairs[i].0.as_str(), key) {
            found = pairs[i].1.clone();
        }
        i = i + 1;
    }
    assert(pv.subrange(0, pairs.len() as int) =~= pv);
    found
}

/// The distribution id: `ID_LIKE` when set and not empty, else `ID` when
/// set and not empty, else `unknown`.
pub fn distro_id(pairs: &Vec<(String, String)>) -> (r: String)
    ensures
        r@ == distro_id_of(pairs_view(pairs@)),
        r@.len() > 0,
{
    proof {
        reveal_strlit("unknown");
    }
    let id = lookup_last(pairs, "ID");
    let id_like = lookup_last(pairs, "ID_LIKE");
    if id_like.as_str().unicode_len() > 0 {
        return id_like;
    }
    if id.as_str().unicode_len() > 0 {
        return id;
    }
    String::from_str("unknown")
}

/// The distribution's display name: the last `PRETTY_NAME`, or the empty
/// string.
pub fn pretty_name(pairs: &Vec<(String, String)>) -> (r: String)
    ensures
        r@ == last_value(pairs_view(pairs@), "PRETTY_NAME"@),
{
    lookup_last(pairs, "PRETTY_NAME")
}

/// The line `KEY="VALUE"` that states one pair.
pub open spec fn render_line(key: Seq<char>, value: Seq<char>) -> Seq<char> {
    key + seq!['='] + (seq!['"'] + value + seq!['"'])
}

/// An os-release text that states `pairs`, one `KEY="VALUE"` line each.
pub open spec fn render_release(pairs: Seq<(Seq<char>, Seq<char>)>) -> Seq<char>
    decreases pairs.len(),
{
    if pairs.len() == 0 {
        seq![]
    } else {
        render_line(pairs[0].0, pairs[0].1) + seq!['\n'] + render_release(pairs.drop_first())
    }
}

/// Pairs that such lines can state: a key holds no `=` and no line break and
/// is already trimmed; a value holds no line break.
pub open spec fn renderable(pairs: Seq<(Seq<char>, Seq<char>)>) -> bool {
    forall|i: int|
        #![trigger pairs[i]]
        0 <= i < pairs.len() ==> {
            &&& !pairs[i].0.contains('=')
            &&& !pairs[i].0.contains('\n')
            &&& trim(pairs[i].0) == pairs[i].0
            &&& !pairs[i].1.contains('\n')
        }
}

proof fn lemma_lines_from_line(x: Seq<char>, rest: Seq<char>, cur: Seq<char>)
    requires
        !x.contains('\n'),
    ensures
        lines_from(x + seq!['\n'] + rest, cur) == seq![strip_cr(cur + x)] + lines_from(rest, seq![]),
    decreases x.len(),
{
    let s = x + seq!['\n'] + rest;
    if x.len() == 0 {
        assert(s.drop_first() =~= rest);
        assert(cur + x =~= cur);
    } else {
        assert(s[0] == x[0]);
        assert(x[0] != '\n') by {
            assert(x.contains(x[0]));
        }
        assert(s.drop_first() =~= x.drop_first() + seq!['\n'] + rest);
        assert(!x.drop_first().contains('\n')) by {
            if x.drop_first().contains('\n') {
                let j = choose|j: int| 0 <= j < x.drop_first().len() && x.drop_first()[j] == '\n';
                assert(x[j + 1] == '\n');
            }
        }
        lemma_lines_from_line(x.drop_first(), rest, cur.push(x[0]));
        assert(cur.push(x[0]) + x.drop_first() =~= cur + x);
    }
}

proof fn lemma_trim_quoted(v: Seq<char>)
    ensures
        trim(seq!['"'] + v + seq!['"']) == seq!['"'] + v + seq!['"'],
{
    let q = seq!['"'] + v + seq!['"'];
    assert(q[0] == '"');
    assert(!is_white_space('"'));
    assert(trim_start(q) == q);
    assert(q.last() == '"');
    assert(trim_end(q) == q);
}

proof fn lemma_parse_render_line(key: Seq<char>, value: Seq<char>)
    requires
        !key.contains('='),
        trim(key) == key,
    ensures
        line_readable(render_line(key, value)),
        parse_line(render_line(key, value)) == Some((key, value)),
{
    let line = render_line(key, value);
    let q = seq!['"'] + value + seq!['"'];
    lemma_find_char_after(key, q, '=');
    assert(line.subrange(0, key.len() as int) =~= key);
    assert(line.subrange(key.len() as int + 1, line.len() as int) =~= q);
    lemma_trim_quoted(value);
    assert(raw_value(line) == q);
    assert(q.len() >= 2);
    assert(q.subrange(1, q.len() - 1) =~= value);
}

/// Reading back a rendered os-release gives the pairs it was rendered from:
/// every `KEY="VALUE"` line is read as its key and its unquoted value.
pub proof fn law_release_round_trip(pairs: Seq<(Seq<char>, Seq<char>)>)
    requires
        renderable(pairs),
    ensures
        release_readable(render_release(pairs)),
        release_pairs(render_release(pairs)) == pairs,
    decreases pairs.len(),
{
    if pairs.len() > 0 {
        let rest = pairs.drop_first();
        let (key, value) = pairs[0];
        let line = render_line(key, value);
        assert(renderable(rest)) by {
            assert forall|i: int| 0 <= i < rest.len() implies #[trigger] rest[i] == pairs[i + 1] by {}
        }
        law_release_round_trip(rest);
        assert(!line.contains('\n')) by {
            if line.contains('\n') {
                let j = choose|j: int| 0 <= j < line.len() && line[j] == '\n';
                if j < key.len() {
                    assert(key[j] == '\n');
                } else if key.len() + 1 < j < line.len() - 1 {
                    assert(value[j - key.len() - 2] == '\n');
                }
            }
        }
        lemma_lines_from_line(line, render_release(rest), seq![]);
        assert(seq![] + line =~= line);
        assert(line.last() == '"');
        let ls = lines_of(render_release(pairs));
        let tail = lines_of(render_release(rest));
        assert(ls == seq![line] + tail);
        lemma_parse_render_line(key, value);
        assert(ls[0] == line);
        assert(ls.drop_first() =~= tail);
        assert forall|i: int| 0 <= i < ls.len() implies line_readable(#[trigger] ls[i]) by {
            if i > 0 {
                assert(ls[i] == tail[i - 1]);
            }
        }
        assert(release_pairs(render_release(pairs)) == seq![(key, value)] + release_pairs(
            render_release(rest),
        ));
        assert(seq![(key, value)] + rest =~= pairs);
    } else {
        assert(render_release(pairs) =~= Seq::<char>::empty());
    }
}

} // verus!
