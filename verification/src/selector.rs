//! Which fonts of the catalog a request selects.

use vstd::prelude::*;
use vstd::string::*;
use crate::catalog::FontInfo;
use crate::catalog::FontModel;
use crate::catalog::models;
use crate::text::chars_of;
use crate::text::contains_chars;
use crate::text::lowercase;
use crate::text::lowercased;
use crate::text::occurs_in;
use crate::text::trim_bounds;
use crate::text::trimmed;

verus! {

/// The views of a list of strings.
pub open spec fn texts(strings: Seq<String>) -> Seq<Seq<char>> {
    strings.map_values(|s: String| s@)
}

/// The index of the first name that `fragment` stands in, if there is one.
pub open spec fn first_match(names: Seq<Seq<char>>, fragment: Seq<char>) -> Option<int>
    decreases names.len(),
{
    if names.len() == 0 {
        None
    } else {
        match first_match(names.drop_last(), fragment) {
            Some(i) => Some(i),
            None => if occurs_in(fragment, names.last()) {
                Some(names.len() - 1)
            } else {
                None
            },
        }
    }
}

/// `first_match` gives an index at which the fragment occurs and before
/// which it does not, and gives none only where it occurs in no name.
pub proof fn lemma_first_match(names: Seq<Seq<char>>, fragment: Seq<char>)
    ensures
        match first_match(names, fragment) {
            Some(i) => 0 <= i < names.len() && occurs_in(fragment, names[i]) && forall|j: int|
                0 <= j < i ==> !occurs_in(fragment, #[trigger] names[j]),
            None => forall|j: int|
                0 <= j < names.len() ==> !occurs_in(fragment, #[trigger] names[j]),
        },
    decreases names.len(),
{
    if names.len() > 0 {
        lemma_first_match(names.drop_last(), fragment);
        assert(forall|j: int|
            0 <= j < names.len() - 1 ==> names.drop_last()[j] == #[trigger] names[j]);
    }
}

/// The index of the first of `names` that contains `fragment`, compared
/// character by character.
pub fn first_containing(names: &Vec<String>, fragment: &str) -> (r: Option<usize>)
    ensures
        match r {
            Some(i) => first_match(texts(names@), fragment@) == Some(i as int),
            None => first_match(texts(names@), fragment@) is None,
        },
{
    let needle = chars_of(fragment);
    let mut i: usize = 0;
    while i < names.len()
        invariant
            i <= names.len(),
            needle@ == fragment@,
            forall|j: int| 0 <= j < i ==> !occurs_in(fragment@, #[trigger] texts(names@)[j]),
        decreases names.len() - i,
    {
        let hay = chars_of(names[i].as_str());
        if contains_chars(&hay, &needle) {
            proof {
                let all = texts(names@);
                lemma_first_match(all, fragment@);
                assert(occurs_in(fragment@, all[i as int]));
                match first_match(all, fragment@) {
                    Some(k) => {
                        if k < i {
                            assert(!occurs_in(fragment@, all[k]));
                        }
                        if k > i {
                            assert(!occurs_in(fragment@, all[i as int]));
                        }
                    },
                    None => {
                        assert(!occurs_in(fragment@, all[i as int]));
                    },
                }
            }
            return Some(i);
        }
        i += 1;
    }
    proof {
        lemma_first_match(texts(names@), fragment@);
    }
    None
}

/// The catalog's names in lower case.
pub open spec fn lowered_names(catalog: Seq<FontModel>) -> Seq<Seq<char>> {
    catalog.map_values(|m: FontModel| lowercased(m.name))
}

/// For each fragment in turn, the first font whose name contains it when
/// both are put in lower case. A fragment that no name contains adds
/// nothing, and a font may come up more than once.
pub open spec fn selected_by_names(catalog: Seq<FontModel>, fragments: Seq<Seq<char>>) -> Seq<
    FontModel,
>
    decreases fragments.len(),
{
    if fragments.len() == 0 {
        Seq::empty()
    } else {
        let before = selected_by_names(catalog, fragments.drop_last());
        match first_match(lowered_names(catalog), lowercased(fragments.last())) {
            Some(i) => before.push(catalog[i]),
            None => before,
        }
    }
}

/// A fragment that stands in no name of the catalog, both in lower case,
/// adds nothing to a selection.
pub proof fn lemma_unmatched_fragment(
    catalog: Seq<FontModel>,
    fragments: Seq<Seq<char>>,
    fragment: Seq<char>,
)
    requires
        forall|j: int|
            0 <= j < catalog.len() ==> !occurs_in(
                lowercased(fragment),
                lowercased((#[trigger] catalog[j]).name),
            ),
    ensures
        selected_by_names(catalog, fragments.push(fragment)) == selected_by_names(
            catalog,
            fragments,
        ),
{
    lemma_first_match(lowered_names(catalog), lowercased(fragment));
    assert(fragments.push(fragment).drop_last() =~= fragments);
    match first_match(lowered_names(catalog), lowercased(fragment)) {
        Some(i) => {
            assert(lowered_names(catalog)[i] == lowercased(catalog[i].name));
        },
        None => {},
    }
}

/// A selection by names holds at most one font for each fragment, and
/// only fonts of the catalog.
pub proof fn lemma_selected_from_catalog(catalog: Seq<FontModel>, fragments: Seq<Seq<char>>)
    ensures
        selected_by_names(catalog, fragments).len() <= fragments.len(),
        forall|i: int|
            0 <= i < selected_by_names(catalog, fragments).len() ==> catalog.contains(
                #[trigger] selected_by_names(catalog, fragments)[i],
            ),
    decreases fragments.len(),
{
    if fragments.len() > 0 {
        lemma_selected_from_catalog(catalog, fragments.drop_last());
        lemma_first_match(lowered_names(catalog), lowercased(fragments.last()));
    }
}

/// Selects fonts by fragments of their names, without regard to case.
pub fn select_fonts_by_name(all_fonts: &Vec<FontInfo>, names: &Vec<String>) -> (selected: Vec<
    FontInfo,
>)
    ensures
        models(selected@) == selected_by_names(models(all_fonts@), texts(names@)),
{
    let ghost catalog = models(all_fonts@);
    let mut lowered: Vec<String> = Vec::new();
    let mut k: usize = 0;
    while k < all_fonts.len()
        invariant
            k <= all_fonts.len(),
            lowered.len() == k,
            catalog == models(all_fonts@),
            forall|j: int| 0 <= j < k ==> (#[trigger] lowered@[j])@ == lowercased(catalog[j].name),
        decreases all_fonts.len() - k,
    {
        lowered.push(lowercase(all_fonts[k].name.as_str()));
        k += 1;
    }
    assert(texts(lowered@) =~= lowered_names(catalog));
    let mut selected: Vec<FontInfo> = Vec::new();
    let mut i: usize = 0;
    assert(texts(names@).subrange(0, 0) =~= Seq::empty());
    assert(models(selected@) =~= Seq::empty());
    while i < names.len()
        invariant
            i <= names.len(),
            catalog == models(all_fonts@),
            texts(lowered@) == lowered_names(catalog),
            models(selected@) == selected_by_names(catalog, texts(names@).subrange(0, i as int)),
        decreases names.len() - i,
    {
        let ghost before = models(selected@);
        let fragment = lowercase(names[i].as_str());
        proof {
            assert(texts(names@).subrange(0, i + 1).drop_last() =~= texts(names@).subrange(
                0,
                i as int,
            ));
            assert(texts(names@).subrange(0, i + 1).last() == names@[i as int]@);
            lemma_first_match(lowered_names(catalog), fragment@);
        }
        match first_containing(&lowered, fragment.as_str()) {
            Some(at) => {
                selected.push(all_fonts[at].duplicate());
                assert(models(selected@) =~= before.push(catalog[at as int]));
            },
            None => {},
        }
        i += 1;
    }
    assert(texts(names@).subrange(0, i as int) =~= texts(names@));
    selected
}

/// A decimal digit.
pub open spec fn is_digit(c: char) -> bool {
    48 <= c as u32 <= 57
}

/// What a decimal digit counts for; nothing for another character.
pub open spec fn digit_value(c: char) -> nat {
    if is_digit(c) {
        (c as u32 - 48) as nat
    } else {
        0
    }
}

/// Every character is a decimal digit.
pub open spec fn all_digits(s: Seq<char>) -> bool {
    forall|k: int| 0 <= k < s.len() ==> is_digit(#[trigger] s[k])
}

/// The number that a run of decimal digits writes.
pub open spec fn decimal_value(s: Seq<char>) -> nat
    decreases s.len(),
{
    if s.len() == 0 {
        0
    } else {
        decimal_value(s.drop_last()) * 10 + digit_value(s.last())
    }
}

/// A number's digits, without the `+` that may stand before them.
pub open spec fn unsigned_digits(t: Seq<char>) -> Seq<char> {
    if t.len() > 0 && t[0] == '+' {
        t.skip(1)
    } else {
        t
    }
}

/// The catalog position that a token names, counted from zero. The token,
/// once trimmed, must be a decimal number from 1 to `count`, with or
/// without a `+` before it; any other token names nothing.
pub open spec fn token_index(token: Seq<char>, count: nat) -> Option<int> {
    let digits = unsigned_digits(trimmed(token));
    if digits.len() > 0 && all_digits(digits) && 1 <= decimal_value(digits) <= count {
        Some(decimal_value(digits) - 1)
    } else {
        None
    }
}

proof fn lemma_value_grows(s: Seq<char>, k: int)
    requires
        0 <= k <= s.len(),
    ensures
        decimal_value(s.subrange(0, k)) <= decimal_value(s),
    decreases s.len(),
{
    if k == s.len() {
        assert(s.subrange(0, k) =~= s);
    } else {
        lemma_value_grows(s.drop_last(), k);
        assert(s.drop_last().subrange(0, k) =~= s.subrange(0, k));
    }
}

fn index_in(v: &Vec<char>, from: usize, to: usize, count: usize) -> (r: Option<usize>)
    requires
        from <= to <= v.len(),
    ensures
        match r {
            Some(i) => token_index(v@.subrange(from as int, to as int), count as nat) == Some(
                i as int,
            ),
            None => token_index(v@.subrange(from as int, to as int), count as nat) is None,
        },
{
    let (first, b) = trim_bounds(v, from, to);
    let ghost t = v@.subrange(first as int, b as int);
    let mut a: usize = first;
    if a < b && v[a] == '+' {
        a += 1;
    }
    let ghost d = v@.subrange(a as int, b as int);
    assert(d =~= unsigned_digits(t)) by {
        if first < b {
            assert(t[0] == v@[first as int]);
            assert(t.skip(1) =~= v@.subrange(first + 1, b as int));
        }
    }
    if a == b {
        return None;
    }
    let mut acc: usize = 0;
    let mut i: usize = a;
    assert(d.subrange(0, 0) =~= Seq::<char>::empty());
    while i < b
        invariant
            a <= i <= b <= v.len(),
            from <= to <= v.len(),
            d == v@.subrange(a as int, b as int),
            d == unsigned_digits(trimmed(v@.subrange(from as int, to as int))),
            acc <= count,
            acc == decimal_value(d.subrange(0, i - a)),
            forall|k: int| 0 <= k < i - a ==> is_digit(#[trigger] d[k]),
        decreases b - i,
    {
        let u: u32 = v[i] as u32;
        if u < 48 || u > 57 {
            assert(!is_digit(d[i - a]));
            return None;
        }
        let digit: usize = (u - 48) as usize;
        proof {
            assert(d.subrange(0, i - a + 1).drop_last() =~= d.subrange(0, i - a));
            assert(d.subrange(0, i - a + 1).last() == v@[i as int]);
            assert(decimal_value(d.subrange(0, i - a + 1)) == acc * 10 + digit);
        }
        if acc > count / 10 || digit > count - acc * 10 {
            proof {
                lemma_value_grows(d, i - a + 1);
            }
            return None;
        }
        acc = acc * 10 + digit;
        i += 1;
    }
    assert(d.subrange(0, b - a) =~= d);
    if acc == 0 {
        None
    } else {
        Some(acc - 1)
    }
}

/// Reads one token of a selection as a position in a catalog of `count`
/// fonts, counted from zero.
pub fn parse_index(token: &str, count: usize) -> (r: Option<usize>)
    ensures
        match r {
            Some(i) => token_index(token@, count as nat) == Some(i as int),
            None => token_index(token@, count as nat) is None,
        },
{
    let v = chars_of(token);
    assert(v@.subrange(0, v.len() as int) =~= token@);
    index_in(&v, 0, v.len(), count)
}

/// The word `all`, in any mix of upper and lower case.
pub open spec fn is_all(t: Seq<char>) -> bool {
    t.len() == 3 && (t[0] == 'a' || t[0] == 'A') && (t[1] == 'l' || t[1] == 'L') && (t[2] == 'l'
        || t[2] == 'L')
}

/// The pieces between the commas of `s`: one more than there are commas.
pub open spec fn split_commas(s: Seq<char>) -> Seq<Seq<char>>
    decreases s.len(),
{
    if s.len() == 0 {
        seq![Seq::empty()]
    } else {
        let before = split_commas(s.drop_last());
        if s.last() == ',' {
            before.push(Seq::empty())
        } else {
            before.update(before.len() - 1, before.last().push(s.last()))
        }
    }
}

/// The selection after one more token: the font that the token names is
/// added; a token that names none adds nothing.
pub open spec fn pick_step(catalog: Seq<FontModel>, before: Seq<FontModel>, token: Seq<char>) -> Seq<
    FontModel,
> {
    match token_index(token, catalog.len()) {
        Some(i) => before.push(catalog[i]),
        None => before,
    }
}

/// The fonts that a list of tokens names, in the order of the tokens.
pub open spec fn picked(catalog: Seq<FontModel>, tokens: Seq<Seq<char>>) -> Seq<FontModel>
    decreases tokens.len(),
{
    if tokens.len() == 0 {
        Seq::empty()
    } else {
        pick_step(catalog, picked(catalog, tokens.drop_last()), tokens.last())
    }
}

/// What a line of input selects: the whole catalog for the word `all`,
/// else the fonts that its comma-separated tokens name.
pub open spec fn selected_by_input(catalog: Seq<FontModel>, input: Seq<char>) -> Seq<FontModel> {
    let t = trimmed(input);
    if is_all(t) {
        catalog
    } else {
        picked(catalog, split_commas(t))
    }
}

/// The word `all` selects the whole catalog, in its order.
pub proof fn lemma_all_selects_catalog(catalog: Seq<FontModel>, input: Seq<char>)
    requires
        is_all(trimmed(input)),
    ensures
        selected_by_input(catalog, input) == catalog,
{
}

/// A token that names no position adds nothing to a selection, and one
/// that names a position adds the font at that position.
pub proof fn lemma_token_adds(catalog: Seq<FontModel>, tokens: Seq<Seq<char>>, token: Seq<char>)
    ensures
        picked(catalog, tokens.push(token)) == match token_index(token, catalog.len()) {
            Some(i) => picked(catalog, tokens).push(catalog[i]),
            None => picked(catalog, tokens),
        },
        token_index(token, catalog.len()) matches Some(i) ==> 0 <= i < catalog.len(),
{
    assert(tokens.push(token).drop_last() =~= tokens);
}

/// A selection by positions holds at most one font for each token, and
/// only fonts of the catalog.
pub proof fn lemma_picked_from_catalog(catalog: Seq<FontModel>, tokens: Seq<Seq<char>>)
    ensures
        picked(catalog, tokens).len() <= tokens.len(),
        forall|i: int|
            0 <= i < picked(catalog, tokens).len() ==> catalog.contains(
                #[trigger] picked(catalog, tokens)[i],
            ),
    decreases tokens.len(),
{
    if tokens.len() > 0 {
        lemma_picked_from_catalog(catalog, tokens.drop_last());
    }
}

fn pick(
    all_fonts: &Vec<FontInfo>,
    v: &Vec<char>,
    from: usize,
    to: usize,
    selected: &mut Vec<FontInfo>,
)
    requires
        from <= to <= v.len(),
    ensures
        models(final(selected)@) == pick_step(
            models(all_fonts@),
            models(old(selected)@),
            v@.subrange(from as int, to as int),
        ),
{
    let ghost before = models(selected@);
    match index_in(v, from, to, all_fonts.len()) {
        Some(at) => {
            selected.push(all_fonts[at].duplicate());
            assert(models(selected@) =~= before.push(models(all_fonts@)[at as int]));
        },
        None => {},
    }
}

fn duplicate_all(fonts: &Vec<FontInfo>) -> (copy: Vec<FontInfo>)
    ensures
        models(copy@) == models(fonts@),
{
    let mut copy: Vec<FontInfo> = Vec::new();
    let mut i: usize = 0;
    while i < fonts.len()
        invariant
            i <= fonts.len(),
            copy.len() == i,
            forall|k: int| 0 <= k < i ==> (#[trigger] copy@[k])@ == fonts@[k]@,
        decreases fonts.len() - i,
    {
        copy.push(fonts[i].duplicate());
        i += 1;
    }
    assert(models(copy@) =~= models(fonts@));
    copy
}

/// Selects fonts by a line of input: `all`, or positions in the catalog,
/// counted from one and separated by commas. Tokens that are no number or
/// name no position are passed over.
pub fn select_fonts_interactively(all_fonts: &Vec<FontInfo>, input: &str) -> (selected: Vec<
    FontInfo,
>)
    ensures
        models(selected@) == selected_by_input(models(all_fonts@), input@),
{
    let v = chars_of(input);
    assert(v@.subrange(0, v.len() as int) =~= input@);
    let (a, b) = trim_bounds(&v, 0, v.len());
    let ghost t = v@.subrange(a as int, b as int);
    let ghost catalog = models(all_fonts@);
    if b - a == 3 && (v[a] == 'a' || v[a] == 'A') && (v[a + 1] == 'l' || v[a + 1] == 'L') && (v[a
        + 2] == 'l' || v[a + 2] == 'L') {
        assert(is_all(t));
        return duplicate_all(all_fonts);
    }
    assert(!is_all(t)) by {
        if t.len() == 3 {
            assert(t[0] == v@[a as int]);
            assert(t[1] == v@[a + 1]);
            assert(t[2] == v@[a + 2]);
        }
    }
    let mut selected: Vec<FontInfo> = Vec::new();
    let mut start: usize = a;
    let mut i: usize = a;
    let ghost mut done: Seq<Seq<char>> = Seq::empty();
    proof {
        assert(v@.subrange(a as int, a as int) =~= Seq::<char>::empty());
        assert(models(selected@) =~= Seq::empty());
        assert(seq![Seq::<char>::empty()] =~= done.push(Seq::<char>::empty()));
    }
    while i < b
        invariant
            a <= start <= i <= b <= v.len(),
            catalog == models(all_fonts@),
            split_commas(v@.subrange(a as int, i as int)) == done.push(
                v@.subrange(start as int, i as int),
            ),
            models(selected@) == picked(catalog, done),
        decreases b - i,
    {
        proof {
            assert(v@.subrange(a as int, i + 1).drop_last() =~= v@.subrange(a as int, i as int));
            assert(v@.subrange(a as int, i + 1).last() == v@[i as int]);
        }
        if v[i] == ',' {
            pick(all_fonts, &v, start, i, &mut selected);
            proof {
                let token = v@.subrange(start as int, i as int);
                assert(done.push(token).drop_last() =~= done);
                done = done.push(token);
                assert(v@.subrange(i + 1, i + 1) =~= Seq::<char>::empty());
            }
            start = i + 1;
        } else {
            proof {
                let token = v@.subrange(start as int, i as int);
                assert(token.push(v@[i as int]) =~= v@.subrange(start as int, i + 1));
                assert(done.push(token).last() == token);
                assert(done.push(token).update(done.len() as int, token.push(v@[i as int]))
                    =~= done.push(v@.subrange(start as int, i + 1)));
            }
        }
        i += 1;
    }
    pick(all_fonts, &v, start, b, &mut selected);
    proof {
        let token = v@.subrange(start as int, b as int);
        assert(done.push(token).drop_last() =~= done);
    }
    selected
}

} // verus!
