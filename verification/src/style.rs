use vstd::prelude::*;
use crate::rewrite::{opt_view, spec_starts_with};
use crate::rewrite::starts_with_str;

verus! {

/// The whitespace characters stripped around style property names and values.
pub open spec fn is_css_space(c: char) -> bool {
    c == ' ' || c == '\t' || c == '\n' || c == '\r'
}

pub open spec fn trim_front(s: Seq<char>) -> Seq<char>
    decreases s.len(),
{
    if s.len() > 0 && is_css_space(s[0]) {
        trim_front(s.subrange(1, s.len() as int))
    } else {
        s
    }
}

pub open spec fn trim_back(s: Seq<char>) -> Seq<char>
    decreases s.len(),
{
    if s.len() > 0 && is_css_space(s[s.len() - 1]) {
        trim_back(s.subrange(0, s.len() - 1))
    } else {
        s
    }
}

/// `s` with leading and trailing whitespace dropped.
pub open spec fn trimmed(s: Seq<char>) -> Seq<char> {
    trim_back(trim_front(s))
}

/// Index of the first occurrence of `c` in `s`, or -1 when absent.
pub open spec fn find_char(s: Seq<char>, c: char) -> int
    decreases s.len(),
{
    if s.len() == 0 {
        -1
    } else if s[0] == c {
        0
    } else if find_char(s.subrange(1, s.len() as int), c) == -1 {
        -1
    } else {
        find_char(s.subrange(1, s.len() as int), c) + 1
    }
}

pub proof fn lemma_find_char_range(s: Seq<char>, c: char)
    ensures
        -1 <= find_char(s, c) < s.len(),
        find_char(s, c) >= 0 ==> s[find_char(s, c)] == c,
    decreases s.len(),
{
    if s.len() == 0 {
    } else if s[0] == c {
    } else {
        lemma_find_char_range(s.subrange(1, s.len() as int), c);
    }
}

/// The declarations of a style attribute: the pieces between semicolons.
pub open spec fn split_decls(s: Seq<char>) -> Seq<Seq<char>>
    decreases s.len(),
    via split_decls_decreases
{
    let i = find_char(s, ';');
    if i < 0 {
        seq![s]
    } else {
        seq![s.subrange(0, i)] + split_decls(s.subrange(i + 1, s.len() as int))
    }
}

#[via_fn]
proof fn split_decls_decreases(s: Seq<char>) {
    lemma_find_char_range(s, ';');
}

/// One declaration as a (property, value) pair: the part before the first
/// colon and the part after it, both trimmed. A declaration without a colon,
/// or whose trimmed property is empty, yields nothing.
pub open spec fn pair_of(d: Seq<char>) -> Option<(Seq<char>, Seq<char>)> {
    let i = find_char(d, ':');
    if i < 0 {
        None
    } else {
        let k = trimmed(d.subrange(0, i));
        if k.len() == 0 {
            None
        } else {
            Some((k, trimmed(d.subrange(i + 1, d.len() as int))))
        }
    }
}

/// The ordered property/value pairs of a list of declarations.
pub open spec fn pairs_of(ds: Seq<Seq<char>>) -> Seq<(Seq<char>, Seq<char>)>
    decreases ds.len(),
{
    if ds.len() == 0 {
        Seq::empty()
    } else {
        match pair_of(ds[0]) {
            Some(p) => seq![p] + pairs_of(ds.subrange(1, ds.len() as int)),
            None => pairs_of(ds.subrange(1, ds.len() as int)),
        }
    }
}

/// The ordered property/value pairs of a whole style attribute.
pub open spec fn style_pairs(s: Seq<char>) -> Seq<(Seq<char>, Seq<char>)> {
    pairs_of(split_decls(s))
}

/// Index of the first pair whose property is `k`, or -1 when absent.
pub open spec fn find_key(ps: Seq<(Seq<char>, Seq<char>)>, k: Seq<char>) -> int
    decreases ps.len(),
{
    if ps.len() == 0 {
        -1
    } else if ps[0].0 == k {
        0
    } else if find_key(ps.subrange(1, ps.len() as int), k) == -1 {
        -1
    } else {
        find_key(ps.subrange(1, ps.len() as int), k) + 1
    }
}

/// Pairs reserialized as `prop: value;`, one after the other.
pub open spec fn serialize_pairs(ps: Seq<(Seq<char>, Seq<char>)>) -> Seq<char>
    decreases ps.len(),
{
    if ps.len() == 0 {
        Seq::empty()
    } else {
        ps[0].0 + ": "@ + ps[0].1 + ";"@ + serialize_pairs(ps.subrange(1, ps.len() as int))
    }
}

/// The rewrite rule for a `background-image` value: a `url('...')` payload
/// carrying the static prefix goes to the CDN base; otherwise a root-relative
/// payload gets the site base put in front of it.
pub open spec fn rewritten_bg(
    v: Seq<char>,
    site: Option<Seq<char>>,
    cdn: Option<Seq<char>>,
) -> Option<Seq<char>> {
    if spec_starts_with(v, "url('/static"@) && cdn is Some {
        Some("url('"@ + cdn->0 + v.subrange("url('/static"@.len() as int, v.len() as int))
    } else if spec_starts_with(v, "url('/"@) && site is Some {
        Some("url('"@ + site->0 + v.subrange("url('"@.len() as int, v.len() as int))
    } else {
        None
    }
}

/// The whole style attribute rewritten: the `background-image` entry's value
/// is rewritten and every pair is reserialized in order; `None` when there is
/// no such entry or its value is not rewritten, and the attribute stays.
pub open spec fn rewritten_style(
    s: Seq<char>,
    site: Option<Seq<char>>,
    cdn: Option<Seq<char>>,
) -> Option<Seq<char>> {
    let ps = style_pairs(s);
    let i = find_key(ps, "background-image"@);
    if i < 0 {
        None
    } else {
        match rewritten_bg(ps[i].1, site, cdn) {
            Some(nv) => Some(serialize_pairs(ps.update(i, (ps[i].0, nv)))),
            None => None,
        }
    }
}

fn trim_front_str(s: &str) -> (r: &str)
    ensures
        r@ == trim_front(s@),
    decreases s@.len(),
{
    let n = s.unicode_len();
    if n > 0 {
        let c = s.get_char(0);
        if c == ' ' || c == '\t' || c == '\n' || c == '\r' {
            return trim_front_str(s.substring_char(1, n));
        }
    }
    s
}

fn trim_back_str(s: &str) -> (r: &str)
    ensures
        r@ == trim_back(s@),
    decreases s@.len(),
{
    let n = s.unicode_len();
    if n > 0 {
        let c = s.get_char(n - 1);
        if c == ' ' || c == '\t' || c == '\n' || c == '\r' {
            return trim_back_str(s.substring_char(0, n - 1));
        }
    }
    s
}

/// `s` with leading and trailing whitespace dropped.
pub fn trimmed_str(s: &str) -> (r: String)
    ensures
        r@ == trimmed(s@),
{
    trim_back_str(trim_front_str(s)).to_owned()
}

/// Index of the first occurrence of `c` in `s`, if any.
pub fn find_char_str(s: &str, c: char) -> (r: Option<usize>)
    ensures
        match r {
            Some(i) => find_char(s@, c) == i as int,
            None => find_char(s@, c) == -1,
        },
    decreases s@.len(),
{
    let n = s.unicode_len();
    if n == 0 {
        None
    } else if s.get_char(0) == c {
        Some(0)
    } else {
        let rest = s.substring_char(1, n);
        match find_char_str(rest, c) {
            Some(i) => {
                proof {
                    lemma_find_char_range(rest@, c);
                }
                Some(i + 1)
            },
            None => None,
        }
    }
}

/// The declarations of a style attribute, split on semicolons.
pub fn split_decls_str(s: &str) -> (r: Vec<String>)
    ensures
        r.deep_view() == split_decls(s@),
    decreases s@.len(),
{
    let n = s.unicode_len();
    match find_char_str(s, ';') {
        None => {
            let mut out: Vec<String> = Vec::new();
            out.push(s.to_owned());
            proof {
                assert(out.deep_view() =~= split_decls(s@));
            }
            out
        },
        Some(i) => {
            proof {
                lemma_find_char_range(s@, ';');
            }
            let head = s.substring_char(0, i).to_owned();
            let tail = s.substring_char(i + 1, n);
            let mut out = split_decls_str(tail);
            out.insert(0, head);
            proof {
                assert(out.deep_view() =~= split_decls(s@));
            }
            out
        },
    }
}

/// One declaration parsed into a trimmed (property, value) pair.
pub fn pair_of_str(d: &str) -> (r: Option<(String, String)>)
    ensures
        r.deep_view() == pair_of(d@),
{
    let n = d.unicode_len();
    match find_char_str(d, ':') {
        None => None,
        Some(i) => {
            proof {
                lemma_find_char_range(d@, ':');
            }
            let k = trimmed_str(d.substring_char(0, i));
            if k.as_str().unicode_len() == 0 {
                None
            } else {
                let v = trimmed_str(d.substring_char(i + 1, n));
                Some((k, v))
            }
        },
    }
}

fn pairs_from(ds: &Vec<String>, i: usize) -> (r: Vec<(String, String)>)
    requires
        i <= ds.len(),
    ensures
        r.deep_view() == pairs_of(ds.deep_view().skip(i as int)),
    decreases ds.len() - i,
{
    if i == ds.len() {
        let out: Vec<(String, String)> = Vec::new();
        proof {
            assert(ds.deep_view().skip(i as int) =~= Seq::<Seq<char>>::empty());
        }
        out
    } else {
        let mut rest = pairs_from(ds, i + 1);
        proof {
            assert(ds.deep_view().skip(i as int).subrange(
                1,
                ds.deep_view().skip(i as int).len() as int,
            ) =~= ds.deep_view().skip(i as int + 1));
            assert(ds.deep_view().skip(i as int)[0] == ds.deep_view()[i as int]);
        }
        match pair_of_str(ds[i].as_str()) {
            Some(p) => {
                rest.insert(0, p);
                proof {
                    assert(rest.deep_view() =~= pairs_of(ds.deep_view().skip(i as int)));
                }
                rest
            },
            None => rest,
        }
    }
}

/// The ordered property/value pairs of a style attribute.
pub fn style_pairs_str(s: &str) -> (r: Vec<(String, String)>)
    ensures
        r.deep_view() == style_pairs(s@),
{
    let ds = split_decls_str(s);
    let r = pairs_from(&ds, 0);
    proof {
        assert(ds.deep_view().skip(0) =~= ds.deep_view());
    }
    r
}

fn find_key_from(ps: &Vec<(String, String)>, k: &str, i: usize) -> (r: Option<usize>)
    requires
        i <= ps.len(),
    ensures
        match r {
            Some(j) => i <= j < ps.len() && find_key(ps.deep_view().skip(i as int), k@) == j - i,
            None => find_key(ps.deep_view().skip(i as int), k@) == -1,
        },
    decreases ps.len() - i,
{
    if i == ps.len() {
        proof {
            assert(ps.deep_view().skip(i as int) =~= Seq::<(Seq<char>, Seq<char>)>::empty());
        }
        None
    } else {
        proof {
            assert(ps.deep_view().skip(i as int).subrange(
                1,
                ps.deep_view().skip(i as int).len() as int,
            ) =~= ps.deep_view().skip(i as int + 1));
            assert(ps.deep_view().skip(i as int)[0] == ps.deep_view()[i as int]);
        }
        if starts_with_str(ps[i].0.as_str(), k) && starts_with_str(k, ps[i].0.as_str()) {
            proof {
                assert(ps.deep_view()[i as int].0 =~= k@);
            }
            Some(i)
        } else {
            proof {
                if ps.deep_view()[i as int].0 == k@ {
                    assert(ps[i as int].0@.subrange(0, k@.len() as int) =~= k@);
                    assert(k@.subrange(0, ps[i as int].0@.len() as int) =~= ps[i as int].0@);
                }
                assert(ps.deep_view()[i as int].0 != k@);
            }
            match find_key_from(ps, k, i + 1) {
                Some(j) => Some(j),
                None => None,
            }
        }
    }
}

fn serialize_from(ps: &Vec<(String, String)>, i: usize) -> (r: String)
    requires
        i <= ps.len(),
    ensures
        r@ == serialize_pairs(ps.deep_view().skip(i as int)),
    decreases ps.len() - i,
{
    if i == ps.len() {
        proof {
            assert(ps.deep_view().skip(i as int) =~= Seq::<(Seq<char>, Seq<char>)>::empty());
        }
        String::new()
    } else {
        proof {
            assert(ps.deep_view().skip(i as int).subrange(
                1,
                ps.deep_view().skip(i as int).len() as int,
            ) =~= ps.deep_view().skip(i as int + 1));
            assert(ps.deep_view().skip(i as int)[0] == ps.deep_view()[i as int]);
        }
        let mut out = ps[i].0.clone();
        out.append(": ");
        out.append(ps[i].1.as_str());
        out.append(";");
        let rest = serialize_from(ps, i + 1);
        out.append(rest.as_str());
        out
    }
}

/// Apply the rewrite rule to a `background-image` value. `None` means the
/// value is left as it stands.
pub fn rewrite_bg_value(v: &str, site_url: &Option<String>, cdn_url: &Option<String>) -> (r: Option<
    String,
>)
    ensures
        opt_view(r) == rewritten_bg(v@, opt_view(*site_url), opt_view(*cdn_url)),
{
    proof {
        reveal_strlit("url('/static");
        reveal_strlit("url('/");
        reveal_strlit("url('");
    }
    let n = v.unicode_len();
    if starts_with_str(v, "url('/static") {
        if let Some(cdn) = cdn_url {
            let mut out = "url('".to_owned();
            out.append(cdn.as_str());
            out.append(v.substring_char(12, n));
            return Some(out);
        }
    }
    if starts_with_str(v, "url('/") {
        if let Some(site) = site_url {
            let mut out = "url('".to_owned();
            out.append(site.as_str());
            out.append(v.substring_char(5, n));
            return Some(out);
        }
    }
    None
}

/// Rewrite the `background-image` entry of a whole style attribute and
/// reserialize the declarations in order. `None` means the attribute is left
/// as it stands.
pub fn rewrite_style_value(style: &str, site_url: &Option<String>, cdn_url: &Option<String>) -> (r:
    Option<String>)
    ensures
        opt_view(r) == rewritten_style(style@, opt_view(*site_url), opt_view(*cdn_url)),
{
    let mut pairs = style_pairs_str(style);
    proof {
        assert(pairs.deep_view().skip(0) =~= pairs.deep_view());
    }
    match find_key_from(&pairs, "background-image", 0) {
        None => None,
        Some(i) => {
            match rewrite_bg_value(pairs[i].1.as_str(), site_url, cdn_url) {
                None => None,
                Some(nv) => {
                    let key = pairs[i].0.clone();
                    let ghost old_pairs = pairs.deep_view();
                    pairs.remove(i);
                    pairs.insert(i, (key, nv));
                    proof {
                        assert(pairs.deep_view() =~= old_pairs.update(
                            i as int,
                            (old_pairs[i as int].0, nv@),
                        ));
                    }
                    let out = serialize_from(&pairs, 0);
                    proof {
                        assert(pairs.deep_view().skip(0) =~= pairs.deep_view());
                    }
                    Some(out)
                },
            }
        },
    }
}

} // verus!
