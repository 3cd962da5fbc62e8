//! Translates a tag-literal string into the ordered sequence of builder
//! operations it denotes: the tag name between the first `<` and the next
//! space or `>`, one attribute per space-separated `key="value"` token
//! between the first space and the first `>`, in source order, and the text
//! content strictly between the first `>` and the following `</`, if any.

use vstd::prelude::*;
use vstd::string::*;
use crate::el::{El, ElChild};
use crate::host::attr_views;

verus! {

/// First position at or after `from` holding `c`, if any.
pub open spec fn find_char(s: Seq<char>, c: char, from: int) -> Option<int>
    decreases s.len() - from,
    when 0 <= from
{
    if from >= s.len() {
        None
    } else if s[from] == c {
        Some(from)
    } else {
        find_char(s, c, from + 1)
    }
}

/// First position at or after `from` holding `c1` or `c2`, if any.
pub open spec fn find_either(s: Seq<char>, c1: char, c2: char, from: int) -> Option<int>
    decreases s.len() - from,
    when 0 <= from
{
    if from >= s.len() {
        None
    } else if s[from] == c1 || s[from] == c2 {
        Some(from)
    } else {
        find_either(s, c1, c2, from + 1)
    }
}

/// First position at or after `from` where `c1` is immediately followed by
/// `c2`, if any.
pub open spec fn find_pair(s: Seq<char>, c1: char, c2: char, from: int) -> Option<int>
    decreases s.len() - from,
    when 0 <= from
{
    if from + 1 >= s.len() {
        None
    } else if s[from] == c1 && s[from + 1] == c2 {
        Some(from)
    } else {
        find_pair(s, c1, c2, from + 1)
    }
}

/// First position at or after `from` holding no quote, or the end.
pub open spec fn skip_quotes(s: Seq<char>, from: int) -> int
    decreases s.len() - from,
    when 0 <= from
{
    if from >= s.len() {
        from
    } else if s[from] != '"' {
        from
    } else {
        skip_quotes(s, from + 1)
    }
}

/// Last position at or before `until` such that no quote stands right before
/// it, or zero.
pub open spec fn rskip_quotes(s: Seq<char>, until: int) -> int
    decreases until,
    when until <= s.len()
{
    if until <= 0 {
        0
    } else if s[until - 1] != '"' {
        until
    } else {
        rskip_quotes(s, until - 1)
    }
}

/// The value with every leading and trailing quote removed.
pub open spec fn trim_quotes(s: Seq<char>) -> Seq<char> {
    let start = skip_quotes(s, 0);
    if start == s.len() {
        Seq::<char>::empty()
    } else {
        s.subrange(start, rskip_quotes(s, s.len() as int))
    }
}

/// The tag name: the substring between the first `<` and the next space or
/// `>`; none if `<` or the delimiter is missing or the name is empty.
pub open spec fn tag_name_of(s: Seq<char>) -> Option<Seq<char>> {
    match find_char(s, '<', 0) {
        None => None,
        Some(lt) => match find_either(s, ' ', '>', lt + 1) {
            None => None,
            Some(d) => if d == lt + 1 {
                None
            } else {
                Some(s.subrange(lt + 1, d))
            },
        },
    }
}

/// One `key="value"` token: the key before the first `=`, the value after
/// it with surrounding quotes removed. Meaningful only for a well-formed
/// token (one that holds an `=`).
pub open spec fn attr_of(tok: Seq<char>) -> (Seq<char>, Seq<char>)
    recommends
        find_char(tok, '=', 0) is Some,
{
    let eq = find_char(tok, '=', 0)->0;
    (tok.subrange(0, eq), trim_quotes(tok.subrange(eq + 1, tok.len() as int)))
}

/// Where `find_char` points, the character stands, and nowhere earlier.
pub proof fn lemma_find_char_bounds(s: Seq<char>, c: char, from: int)
    requires
        0 <= from,
    ensures
        match find_char(s, c, from) {
            Some(i) => from <= i < s.len() && s[i] == c && (forall|j: int|
                from <= j < i ==> s[j] != c),
            None => forall|j: int| from <= j < s.len() ==> s[j] != c,
        },
    decreases s.len() - from,
{
    if from < s.len() && s[from] != c {
        lemma_find_char_bounds(s, c, from + 1);
    }
}

/// Where `find_either` points, one of the two characters stands, and neither
/// stands earlier.
pub proof fn lemma_find_either_bounds(s: Seq<char>, c1: char, c2: char, from: int)
    requires
        0 <= from,
    ensures
        match find_either(s, c1, c2, from) {
            Some(i) => from <= i < s.len() && (s[i] == c1 || s[i] == c2) && (forall|j: int|
                from <= j < i ==> s[j] != c1 && s[j] != c2),
            None => forall|j: int| from <= j < s.len() ==> s[j] != c1 && s[j] != c2,
        },
    decreases s.len() - from,
{
    if from < s.len() && s[from] != c1 && s[from] != c2 {
        lemma_find_either_bounds(s, c1, c2, from + 1);
    }
}

/// Where `find_pair` points, the two characters stand in order, and no
/// earlier position starts such a pair.
pub proof fn lemma_find_pair_bounds(s: Seq<char>, c1: char, c2: char, from: int)
    requires
        0 <= from,
    ensures
        match find_pair(s, c1, c2, from) {
            Some(i) => from <= i && i + 1 < s.len() && s[i] == c1 && s[i + 1] == c2 && (forall|
                j: int,
            |
                from <= j < i ==> !(#[trigger] s[j] == c1 && s[j + 1] == c2)),
            None => forall|j: int|
                from <= j && j + 1 < s.len() ==> !(#[trigger] s[j] == c1 && s[j + 1] == c2),
        },
    decreases s.len() - from,
{
    if from + 1 < s.len() && !(s[from] == c1 && s[from + 1] == c2) {
        lemma_find_pair_bounds(s, c1, c2, from + 1);
    }
}

/// Every space-separated token of the attribute region holds an `=`; the
/// attribute extractor is defined only on such regions.
pub open spec fn tokens_wf(region: Seq<char>) -> bool
    decreases region.len(),
    via tokens_wf_decreases
{
    match find_char(region, ' ', 0) {
        None => find_char(region, '=', 0) is Some,
        Some(sp) => find_char(region.subrange(0, sp), '=', 0) is Some && tokens_wf(
            region.subrange(sp + 1, region.len() as int),
        ),
    }
}

#[via_fn]
proof fn tokens_wf_decreases(region: Seq<char>) {
    lemma_find_char_bounds(region, ' ', 0);
}

/// The attributes of a region, token by token, left to right.
pub open spec fn attrs_of(region: Seq<char>) -> Seq<(Seq<char>, Seq<char>)>
    decreases region.len(),
    via attrs_of_decreases
{
    match find_char(region, ' ', 0) {
        None => seq![attr_of(region)],
        Some(sp) => seq![attr_of(region.subrange(0, sp))] + attrs_of(
            region.subrange(sp + 1, region.len() as int),
        ),
    }
}

#[via_fn]
proof fn attrs_of_decreases(region: Seq<char>) {
    lemma_find_char_bounds(region, ' ', 0);
}

/// The attribute region is the substring between the first space and the
/// first `>`. The extractor is defined when that region exists in order and
/// every token of it holds an `=`; a malformed region is a programming
/// error, not a recoverable input.
pub open spec fn attrs_region_wf(s: Seq<char>) -> bool {
    match (find_char(s, ' ', 0), find_char(s, '>', 0)) {
        (Some(sp), Some(gt)) => sp + 1 <= gt && tokens_wf(s.subrange(sp + 1, gt)),
        _ => true,
    }
}

/// What the attribute extraction yields: the region's attributes when both
/// delimiters exist, nothing otherwise.
pub open spec fn attrs_spec(s: Seq<char>) -> Option<Seq<(Seq<char>, Seq<char>)>> {
    match (find_char(s, ' ', 0), find_char(s, '>', 0)) {
        (Some(sp), Some(gt)) => Some(attrs_of(s.subrange(sp + 1, gt))),
        _ => None,
    }
}

/// The text region is the substring strictly between the first `>` and the
/// first `</`; the extractor is defined when those stand in order.
pub open spec fn text_region_wf(s: Seq<char>) -> bool {
    match (find_char(s, '>', 0), find_pair(s, '<', '/', 0)) {
        (Some(gt), Some(ct)) => gt + 1 <= ct,
        _ => true,
    }
}

/// The text content: the substring strictly between the first `>` and the
/// following `</`, none if either delimiter is missing or the substring is
/// empty.
pub open spec fn text_content_of(s: Seq<char>) -> Option<Seq<char>> {
    match (find_char(s, '>', 0), find_pair(s, '<', '/', 0)) {
        (Some(gt), Some(ct)) => if gt + 1 == ct {
            None
        } else {
            Some(s.subrange(gt + 1, ct))
        },
        _ => None,
    }
}


/// Finds the first occurrence of `c` at or after `from`.
fn find_char_at(s: &str, c: char, from: usize) -> (r: Option<usize>)
    requires
        from as int <= s@.len(),
    ensures
        match r {
            Some(i) => find_char(s@, c, from as int) == Some(i as int),
            None => find_char(s@, c, from as int) is None,
        },
{
    let n = s.unicode_len();
    let mut i: usize = from;
    while i < n
        invariant
            from <= i <= n,
            n == s@.len(),
            find_char(s@, c, from as int) == find_char(s@, c, i as int),
        decreases n - i,
    {
        if s.get_char(i) == c {
            return Some(i);
        }
        i += 1;
    }
    None
}

/// Finds the first occurrence of `c1` or `c2` at or after `from`.
fn find_either_at(s: &str, c1: char, c2: char, from: usize) -> (r: Option<usize>)
    requires
        from as int <= s@.len(),
    ensures
        match r {
            Some(i) => find_either(s@, c1, c2, from as int) == Some(i as int),
            None => find_either(s@, c1, c2, from as int) is None,
        },
{
    let n = s.unicode_len();
    let mut i: usize = from;
    while i < n
        invariant
            from <= i <= n,
            n == s@.len(),
            find_either(s@, c1, c2, from as int) == find_either(s@, c1, c2, i as int),
        decreases n - i,
    {
        let ch = s.get_char(i);
        if ch == c1 || ch == c2 {
            return Some(i);
        }
        i += 1;
    }
    None
}

/// Finds the first position where `c1` is immediately followed by `c2`.
fn find_pair_at(s: &str, c1: char, c2: char, from: usize) -> (r: Option<usize>)
    requires
        from as int <= s@.len(),
    ensures
        match r {
            Some(i) => find_pair(s@, c1, c2, from as int) == Some(i as int),
            None => find_pair(s@, c1, c2, from as int) is None,
        },
{
    let n = s.unicode_len();
    let mut i: usize = from;
    while i < n && i + 1 < n
        invariant
            from <= i,
            i <= n,
            n == s@.len(),
            find_pair(s@, c1, c2, from as int) == find_pair(s@, c1, c2, i as int),
        decreases n - i,
    {
        if s.get_char(i) == c1 && s.get_char(i + 1) == c2 {
            return Some(i);
        }
        i += 1;
    }
    None
}

/// Removes every leading and trailing quote from a value.
fn trim_quotes_str<'a>(t: &'a str) -> (r: &'a str)
    ensures
        r@ == trim_quotes(t@),
{
    let n = t.unicode_len();
    let mut start: usize = 0;
    while start < n && t.get_char(start) == '"'
        invariant
            start <= n,
            n == t@.len(),
            skip_quotes(t@, 0) == skip_quotes(t@, start as int),
        decreases n - start,
    {
        start += 1;
    }
    if start == n {
        proof {
            reveal_strlit("");
            assert(""@ =~= Seq::<char>::empty());
        }
        return "";
    }
    let mut end: usize = n;
    while end > start && t.get_char(end - 1) == '"'
        invariant
            start < end,
            end <= n,
            start < n,
            n == t@.len(),
            t@[start as int] != '"',
            rskip_quotes(t@, n as int) == rskip_quotes(t@, end as int),
        decreases end,
    {
        end -= 1;
    }
    proof {
        assert(rskip_quotes(t@, end as int) == end as int);
        assert(trim_quotes(t@) == t@.subrange(start as int, end as int));
    }
    t.substring_char(start, end)
}


/// Extracts the tag name: the substring between the first `<` and the next
/// space or `>`; nothing if either delimiter is missing or the name is
/// empty.
pub fn extract_tag_name<'a>(input: &'a str) -> (r: Option<&'a str>)
    ensures
        r is Some <==> tag_name_of(input@) is Some,
        r matches Some(t) ==> tag_name_of(input@) == Some(t@),
{
    // the length bound that makes the index arithmetic safe
    let _len = input.unicode_len();
    let lt = match find_char_at(input, '<', 0) {
        Some(i) => i,
        None => {
            return None;
        },
    };
    proof {
        lemma_find_char_bounds(input@, '<', 0);
    }
    let d = match find_either_at(input, ' ', '>', lt + 1) {
        Some(i) => i,
        None => {
            return None;
        },
    };
    proof {
        lemma_find_either_bounds(input@, ' ', '>', lt + 1);
    }
    if d == lt + 1 {
        None
    } else {
        Some(input.substring_char(lt + 1, d))
    }
}

/// The views of extracted attribute pairs equal the specified ones.
pub open spec fn pairs_match(v: Seq<(&str, &str)>, a: Seq<(Seq<char>, Seq<char>)>) -> bool {
    &&& v.len() == a.len()
    &&& forall|i: int|
        0 <= i < v.len() ==> (#[trigger] v[i]).0@ == a[i].0 && v[i].1@ == a[i].1
}

/// Splits a well-formed attribute region into its `key="value"` pairs, left
/// to right.
fn parse_attr_tokens<'a>(region: &'a str) -> (r: Vec<(&'a str, &'a str)>)
    requires
        tokens_wf(region@),
    ensures
        pairs_match(r@, attrs_of(region@)),
    decreases region@.len(),
{
    let n = region.unicode_len();
    match find_char_at(region, ' ', 0) {
        None => {
            let eq = match find_char_at(region, '=', 0) {
                Some(i) => i,
                None => {
                    proof {
                        assert(false);
                    }
                    0
                },
            };
            proof {
                lemma_find_char_bounds(region@, '=', 0);
            }
            let name = region.substring_char(0, eq);
            let raw = region.substring_char(eq + 1, n);
            let value = trim_quotes_str(raw);
            let mut out: Vec<(&'a str, &'a str)> = Vec::new();
            out.push((name, value));
            proof {
                assert(attrs_of(region@) == seq![attr_of(region@)]);
                assert(out@[0].0@ == attr_of(region@).0);
                assert(out@[0].1@ == attr_of(region@).1);
            }
            out
        },
        Some(sp) => {
            proof {
                lemma_find_char_bounds(region@, ' ', 0);
            }
            let tok = region.substring_char(0, sp);
            let rest = region.substring_char(sp + 1, n);
            let tn = tok.unicode_len();
            let eq = match find_char_at(tok, '=', 0) {
                Some(i) => i,
                None => {
                    proof {
                        assert(false);
                    }
                    0
                },
            };
            proof {
                lemma_find_char_bounds(tok@, '=', 0);
            }
            let name = tok.substring_char(0, eq);
            let raw = tok.substring_char(eq + 1, tn);
            let value = trim_quotes_str(raw);
            let mut out: Vec<(&'a str, &'a str)> = Vec::new();
            out.push((name, value));
            let mut restv = parse_attr_tokens(rest);
            out.append(&mut restv);
            proof {
                let whole = attrs_of(region@);
                assert(whole == seq![attr_of(tok@)] + attrs_of(rest@));
                assert(out@[0].0@ == attr_of(tok@).0);
                assert(out@[0].1@ == attr_of(tok@).1);
                assert forall|i: int| 0 <= i < out@.len() implies (#[trigger] out@[i]).0@
                    == whole[i].0 && out@[i].1@ == whole[i].1 by {
                    if i > 0 {
                        assert(whole[i] == attrs_of(rest@)[i - 1]);
                    }
                }
            }
            out
        },
    }
}

/// Extracts the attributes between the first space and the first `>`:
/// nothing if either delimiter is missing, else one pair per token in source
/// order. Defined on inputs whose attribute region is well formed.
pub fn extract_attrs<'a>(input: &'a str) -> (r: Option<Vec<(&'a str, &'a str)>>)
    requires
        attrs_region_wf(input@),
    ensures
        r is Some <==> (find_char(input@, ' ', 0) is Some && find_char(input@, '>', 0) is Some),
        r matches Some(v) ==> attrs_spec(input@) matches Some(a) && pairs_match(v@, a),
{
    // the length bound that makes the index arithmetic safe
    let _len = input.unicode_len();
    let sp = match find_char_at(input, ' ', 0) {
        Some(i) => i,
        None => {
            return None;
        },
    };
    let gt = match find_char_at(input, '>', 0) {
        Some(i) => i,
        None => {
            return None;
        },
    };
    proof {
        lemma_find_char_bounds(input@, ' ', 0);
        lemma_find_char_bounds(input@, '>', 0);
    }
    let region = input.substring_char(sp + 1, gt);
    Some(parse_attr_tokens(region))
}

/// Extracts the text content strictly between the first `>` and the
/// following `</`: nothing if either delimiter is missing or the substring
/// is empty. Defined on inputs whose text region is well formed.
pub fn extract_text_content<'a>(input: &'a str) -> (r: Option<&'a str>)
    requires
        text_region_wf(input@),
    ensures
        r is Some <==> text_content_of(input@) is Some,
        r matches Some(t) ==> text_content_of(input@) == Some(t@),
{
    // the length bound that makes the index arithmetic safe
    let _len = input.unicode_len();
    let gt = match find_char_at(input, '>', 0) {
        Some(i) => i,
        None => {
            return None;
        },
    };
    let ct = match find_pair_at(input, '<', '/', 0) {
        Some(i) => i,
        None => {
            return None;
        },
    };
    proof {
        lemma_find_char_bounds(input@, '>', 0);
        lemma_find_pair_bounds(input@, '<', '/', 0);
    }
    if gt + 1 == ct {
        None
    } else {
        Some(input.substring_char(gt + 1, ct))
    }
}


/// The ordered sequence of builder operations a tag literal denotes: first
/// the tag, then one attribute per `key="value"` token in source order, then
/// the text content if any.
pub struct ElTemplate {
    pub tag: String,
    pub attrs: Vec<(String, String)>,
    pub text: Option<String>,
}

/// The template holds exactly what the input denotes: its tag name, its
/// attribute pairs in source order (none when a delimiter is missing), and
/// its text content (none when missing or empty).
pub open spec fn template_matches(t: ElTemplate, s: Seq<char>) -> bool {
    &&& tag_name_of(s) == Some(t.tag@)
    &&& match attrs_spec(s) {
        Some(a) => attr_views(t.attrs@) == a,
        None => t.attrs@.len() == 0,
    }
    &&& match text_content_of(s) {
        Some(x) => t.text matches Some(txt) && txt@ == x,
        None => t.text is None,
    }
}

/// Parses a tag literal into its builder operations. Returns a template
/// exactly when a tag name can be extracted; the template then carries the
/// tag, the attributes in source order, and the text content if any.
/// Defined on inputs whose attribute and text regions are well formed.
pub fn parse_element(input: &str) -> (r: Option<ElTemplate>)
    requires
        attrs_region_wf(input@),
        text_region_wf(input@),
    ensures
        r is Some <==> tag_name_of(input@) is Some,
        r matches Some(t) ==> template_matches(t, input@),
{
    let tag = match extract_tag_name(input) {
        Some(t) => t,
        None => {
            return None;
        },
    };
    let mut attrs: Vec<(String, String)> = Vec::new();
    match extract_attrs(input) {
        Some(pairs) => {
            let ghost a = attrs_spec(input@)->0;
            let mut i: usize = 0;
            while i < pairs.len()
                invariant
                    pairs_match(pairs@, a),
                    i <= pairs@.len(),
                    attrs@.len() == i,
                    forall|k: int|
                        0 <= k < i ==> (#[trigger] attrs@[k]).0@ == a[k].0 && attrs@[k].1@
                            == a[k].1,
                decreases pairs@.len() - i,
            {
                let p = &pairs[i];
                attrs.push((p.0.to_owned(), p.1.to_owned()));
                i += 1;
            }
            proof {
                assert(attr_views(attrs@) =~= a);
            }
        },
        None => {},
    }
    let text = match extract_text_content(input) {
        Some(t) => Some(t.to_owned()),
        None => None,
    };
    Some(ElTemplate { tag: tag.to_owned(), attrs, text })
}

/// The element shows exactly the template's operations, applied in order:
/// the template's tag, its attributes left to right, and one text child
/// exactly when the template carries text.
pub open spec fn el_applies_template(el: El, template: ElTemplate) -> bool {
    &&& el.tag@ == template.tag@
    &&& attr_views(el.attrs@) == attr_views(template.attrs@)
    &&& el.listeners@.len() == 0
    &&& match template.text {
        Some(t) => el.children@.len() == 1 && (el.children@[0] matches ElChild::Text(d) && d@
            == t@),
        None => el.children@.len() == 0,
    }
}

/// Template round trip: an element built from a parsed template shows
/// exactly what the literal denotes — its tag name, its attributes in
/// source order, and its text content if any.
pub proof fn lemma_template_round_trip(s: Seq<char>, template: ElTemplate, el: El)
    requires
        template_matches(template, s),
        el_applies_template(el, template),
    ensures
        tag_name_of(s) == Some(el.tag@),
        match attrs_spec(s) {
            Some(a) => attr_views(el.attrs@) == a,
            None => el.attrs@.len() == 0,
        },
        match text_content_of(s) {
            Some(x) => el.children@.len() == 1 && (el.children@[0] matches ElChild::Text(d)
                && d@ == x),
            None => el.children@.len() == 0,
        },
{
    assert(attr_views(el.attrs@).len() == el.attrs@.len());
    assert(attr_views(template.attrs@).len() == template.attrs@.len());
}

/// Applies a template's operations to the element builder, in order: the
/// tag, then each attribute left to right, then the text if any — so a
/// parsed literal and the builder chain it denotes produce the same
/// element (`lemma_template_round_trip`).
pub fn build_el(template: &ElTemplate) -> (el: El)
    ensures
        el_applies_template(el, *template),
{
    let mut el = El::new(template.tag.as_str());
    let mut i: usize = 0;
    while i < template.attrs.len()
        invariant
            el.tag@ == template.tag@,
            el.listeners@.len() == 0,
            el.children@.len() == 0,
            i <= template.attrs@.len(),
            el.attrs@.len() == i,
            forall|k: int|
                0 <= k < i ==> (#[trigger] el.attrs@[k]).0@ == template.attrs@[k].0@
                    && el.attrs@[k].1@ == template.attrs@[k].1@,
        decreases template.attrs@.len() - i,
    {
        let p = &template.attrs[i];
        el = el.attr(p.0.as_str(), p.1.as_str());
        i += 1;
    }
    proof {
        assert(attr_views(el.attrs@) =~= attr_views(template.attrs@));
    }
    match &template.text {
        Some(t) => el.text(t.as_str()),
        None => el,
    }
}

/// Checks that the attribute region between the first space and the first
/// `>` exists in order and that each of its tokens holds an `=`: the inputs
/// on which attribute extraction is defined. The embedder guards its calls
/// with this.
pub fn attrs_region_ok(input: &str) -> (r: bool)
    ensures
        r == attrs_region_wf(input@),
{
    // the length bound that makes the index arithmetic safe
    let _len = input.unicode_len();
    let sp = match find_char_at(input, ' ', 0) {
        Some(i) => i,
        None => {
            return true;
        },
    };
    let gt = match find_char_at(input, '>', 0) {
        Some(i) => i,
        None => {
            return true;
        },
    };
    proof {
        lemma_find_char_bounds(input@, ' ', 0);
        lemma_find_char_bounds(input@, '>', 0);
    }
    if sp + 1 > gt {
        return false;
    }
    let region = input.substring_char(sp + 1, gt);
    tokens_ok(region)
}

/// Checks that every space-separated token of a region holds an `=`.
fn tokens_ok(region: &str) -> (r: bool)
    ensures
        r == tokens_wf(region@),
    decreases region@.len(),
{
    let n = region.unicode_len();
    match find_char_at(region, ' ', 0) {
        None => find_char_at(region, '=', 0).is_some(),
        Some(sp) => {
            proof {
                lemma_find_char_bounds(region@, ' ', 0);
            }
            let tok = region.substring_char(0, sp);
            if find_char_at(tok, '=', 0).is_none() {
                return false;
            }
            let rest = region.substring_char(sp + 1, n);
            tokens_ok(rest)
        },
    }
}

/// Checks that the first `>` stands no later than the first `</`: the
/// inputs on which text extraction is defined. The embedder guards its
/// calls with this.
pub fn text_region_ok(input: &str) -> (r: bool)
    ensures
        r == text_region_wf(input@),
{
    // the length bound that makes the index arithmetic safe
    let _len = input.unicode_len();
    let gt = match find_char_at(input, '>', 0) {
        Some(i) => i,
        None => {
            return true;
        },
    };
    let ct = match find_pair_at(input, '<', '/', 0) {
        Some(i) => i,
        None => {
            return true;
        },
    };
    gt < ct
}

} // verus!
