//! Text rules: blank detection, trimming, tag lists and substring search.

use vstd::prelude::*;

verus! {

/// The Unicode `White_Space` code points; `char::is_whitespace`, and with it
/// `str::trim`, go by this set.
pub open spec fn is_white_space(c: char) -> bool {
    let u = c as u32;
    ||| 0x09 <= u <= 0x0D
    ||| u == 0x20
    ||| u == 0x85
    ||| u == 0xA0
    ||| u == 0x1680
    ||| 0x2000 <= u <= 0x200A
    ||| u == 0x2028
    ||| u == 0x2029
    ||| u == 0x202F
    ||| u == 0x205F
    ||| u == 0x3000
}

/// `s` without its leading white space.
pub open spec fn trim_start_chars(s: Seq<char>) -> Seq<char>
    decreases s.len(),
{
    if s.len() > 0 && is_white_space(s[0]) {
        trim_start_chars(s.drop_first())
    } else {
        s
    }
}

/// `s` without its trailing white space.
pub open spec fn trim_end_chars(s: Seq<char>) -> Seq<char>
    decreases s.len(),
{
    if s.len() > 0 && is_white_space(s.last()) {
        trim_end_chars(s.drop_last())
    } else {
        s
    }
}

/// `s` without white space at either end.
pub open spec fn trim_chars(s: Seq<char>) -> Seq<char> {
    trim_end_chars(trim_start_chars(s))
}

/// `s` holds nothing but white space.
pub open spec fn is_blank(s: Seq<char>) -> bool {
    trim_chars(s).len() == 0
}

/// `s` with its letters mapped to lower case, as `str::to_lowercase` does.
pub uninterp spec fn lowercase_chars(s: Seq<char>) -> Seq<char>;

/// `needle` occurs in `haystack` as a run of consecutive characters.
pub open spec fn contains_chars(haystack: Seq<char>, needle: Seq<char>) -> bool {
    exists|i: int|
        0 <= i && i + needle.len() <= haystack.len() && #[trigger] haystack.subrange(
            i,
            i + needle.len(),
        ) == needle
}

/// The pieces of `s` between its commas, in order: one more piece than `s`
/// has commas, the empty ones included.
pub open spec fn comma_pieces(s: Seq<char>) -> Seq<Seq<char>>
    decreases s.len(),
{
    if s.len() == 0 {
        seq![Seq::<char>::empty()]
    } else {
        let rest = comma_pieces(s.drop_first());
        if s[0] == ',' {
            seq![Seq::<char>::empty()] + rest
        } else {
            rest.update(0, seq![s[0]] + rest[0])
        }
    }
}

/// The tags that a list of pieces gives: each piece trimmed, the empty
/// results left out, the order kept.
pub open spec fn tags_from_pieces(pieces: Seq<Seq<char>>) -> Seq<Seq<char>>
    decreases pieces.len(),
{
    if pieces.len() == 0 {
        Seq::empty()
    } else {
        let earlier = tags_from_pieces(pieces.drop_last());
        let tag = trim_chars(pieces.last());
        if tag.len() == 0 {
            earlier
        } else {
            earlier.push(tag)
        }
    }
}

/// The tags written in a tag field: comma separated, each trimmed, empty
/// ones dropped.
pub open spec fn parsed_tags(field: Seq<char>) -> Seq<Seq<char>> {
    tags_from_pieces(comma_pieces(field))
}

/// The separator between tags when they are shown in one line.
pub open spec fn tag_separator() -> Seq<char> {
    seq![',', ' ']
}

/// `parts` put one after another with `sep` between each two of them.
pub open spec fn joined(parts: Seq<Seq<char>>, sep: Seq<char>) -> Seq<char>
    decreases parts.len(),
{
    if parts.len() == 0 {
        Seq::empty()
    } else if parts.len() == 1 {
        parts[0]
    } else {
        joined(parts.drop_last(), sep) + sep + parts.last()
    }
}

/// The characters of each string of a list.
pub open spec fn views(strings: Seq<String>) -> Seq<Seq<char>> {
    strings.map_values(|s: String| s@)
}

/// `str::trim`: the slice of `s` between its leading and its trailing white
/// space (Unicode `White_Space`).
#[verifier::external_body]
fn trim<'a>(s: &'a str) -> (trimmed: &'a str)
    ensures
        trimmed@ == trim_chars(s@),
{
    s.trim()
}

/// `str::to_lowercase`. What the lowering does to each character is not
/// stated here; the result is named `lowercase_chars` of the input.
#[verifier::external_body]
fn to_lowercase(s: &str) -> (lowered: String)
    ensures
        lowered@ == lowercase_chars(s@),
{
    s.to_lowercase()
}

/// `str::contains` with a string pattern: whether `needle` is a substring of
/// `haystack`.
#[verifier::external_body]
fn contains(haystack: &str, needle: &str) -> (found: bool)
    ensures
        found == contains_chars(haystack@, needle@),
{
    haystack.contains(needle)
}

/// The pieces of `s` between its commas, as `str::split(',')` gives them.
fn split_at_commas<'a>(s: &'a str) -> (pieces: Vec<&'a str>)
    ensures
        pieces@.map_values(|p: &'a str| p@) == comma_pieces(s@),
{
    let count = s.unicode_len();
    let mut pieces: Vec<&'a str> = Vec::new();
    let mut start: usize = 0;
    let mut i: usize = 0;
    assert(s@.skip(0) =~= s@);
    assert(pieces@.map_values(|p: &'a str| p@) =~= Seq::<Seq<char>>::empty());
    assert(Seq::<Seq<char>>::empty() + comma_pieces(s@) =~= comma_pieces(s@));
    while i < count
        invariant
            count == s@.len(),
            start <= i <= count,
            !s@.subrange(start as int, i as int).contains(','),
            pieces@.map_values(|p: &'a str| p@) + comma_pieces(s@.skip(start as int))
                == comma_pieces(s@),
        decreases count - i,
    {
        let c = s.get_char(i);
        if c == ',' {
            let piece = s.substring_char(start, i);
            proof {
                let before = s@.subrange(start as int, i as int);
                assert(s@.skip(start as int) =~= before + seq![','] + s@.skip(i + 1));
                lemma_comma_pieces_concat(before, s@.skip(i + 1));
                lemma_comma_pieces_without_comma(before);
                assert(pieces@.push(piece).map_values(|p: &'a str| p@) =~= pieces@.map_values(
                    |p: &'a str| p@,
                ).push(before));
                assert(s@.subrange(i + 1, i + 1) =~= Seq::<char>::empty());
            }
            pieces.push(piece);
            start = i + 1;
        } else {
            proof {
                let before = s@.subrange(start as int, i as int);
                assert(s@.subrange(start as int, i + 1) =~= before.push(c));
                assert(!before.push(c).contains(',')) by {
                    if before.push(c).contains(',') {
                        let m = choose|m: int| 0 <= m < before.push(c).len() && before.push(c)[m] == ',';
                        assert(before.contains(','));
                    }
                }
            }
        }
        i = i + 1;
    }
    let last = s.substring_char(start, count);
    proof {
        assert(s@.skip(start as int) =~= s@.subrange(start as int, count as int));
        lemma_comma_pieces_without_comma(s@.skip(start as int));
        assert(pieces@.push(last).map_values(|p: &'a str| p@) =~= pieces@.map_values(
            |p: &'a str| p@,
        ).push(last@));
    }
    pieces.push(last);
    pieces
}

/// Whether `s` holds nothing but white space.
pub fn is_blank_text(s: &str) -> (blank: bool)
    ensures
        blank == is_blank(s@),
{
    trim(s).is_empty()
}

/// The search key of a query: the query trimmed, then lowered.
pub open spec fn search_key(query: Seq<char>) -> Seq<char> {
    lowercase_chars(trim_chars(query))
}

/// The search key of `query` (see `search_key`).
pub fn make_search_key(query: &str) -> (key: String)
    ensures
        key@ == search_key(query@),
{
    to_lowercase(trim(query))
}

/// Whether `text`, lowered, contains `key`.
pub fn matches_key(text: &str, key: &str) -> (found: bool)
    ensures
        found == contains_chars(lowercase_chars(text@), key@),
{
    let lowered = to_lowercase(text);
    contains(lowered.as_str(), key)
}

/// Reads a tag field such as `"work, ideas,, todo "`: the comma separated
/// pieces, trimmed, without the empty ones.
pub fn parse_tags(field: &str) -> (tags: Vec<String>)
    ensures
        views(tags@) == parsed_tags(field@),
{
    let parts = split_at_commas(field);
    let ghost pieces = parts@.map_values(|p: &str| p@);
    let mut tags: Vec<String> = Vec::new();
    let count = parts.len();
    for i in 0..count
        invariant
            count == parts@.len(),
            pieces == parts@.map_values(|p: &str| p@),
            pieces == comma_pieces(field@),
            views(tags@) == tags_from_pieces(pieces.take(i as int)),
    {
        let tag = trim(parts[i]);
        assert(pieces.take(i + 1).drop_last() == pieces.take(i as int));
        if !tag.is_empty() {
            tags.push(tag.to_owned());
        }
        assert(views(tags@) == tags_from_pieces(pieces.take(i + 1)));
    }
    assert(pieces.take(count as int) == pieces);
    tags
}

/// The tags in one line, separated by `", "`.
pub fn join_tags(tags: &Vec<String>) -> (line: String)
    ensures
        line@ == joined(views(tags@), tag_separator()),
{
    let sep = ", ";
    proof {
        reveal_strlit(", ");
    }
    assert(sep@ == tag_separator());
    let mut line = String::new();
    let count = tags.len();
    for i in 0..count
        invariant
            count == tags@.len(),
            sep@ == tag_separator(),
            line@ == joined(views(tags@).take(i as int), tag_separator()),
    {
        let ghost parts = views(tags@);
        assert(parts.take(i + 1).drop_last() == parts.take(i as int));
        if i > 0 {
            line.append(sep);
        }
        line.append(tags[i].as_str());
    }
    assert(views(tags@).take(count as int) == views(tags@));
    line
}

/// A tag as the tag field can give it back unchanged: not empty, no white
/// space at either end, no comma.
pub open spec fn is_clean_tag(tag: Seq<char>) -> bool {
    &&& tag.len() > 0
    &&& !is_white_space(tag[0])
    &&& !is_white_space(tag.last())
    &&& !tag.contains(',')
}

proof fn lemma_trim_start_ends(s: Seq<char>)
    ensures
        trim_start_chars(s).len() > 0 ==> !is_white_space(trim_start_chars(s)[0]),
        forall|c: char| trim_start_chars(s).contains(c) ==> s.contains(c),
    decreases s.len(),
{
    if s.len() > 0 && is_white_space(s[0]) {
        lemma_trim_start_ends(s.drop_first());
        assert forall|c: char| trim_start_chars(s).contains(c) implies s.contains(c) by {
            let k = choose|k: int| 0 <= k < trim_start_chars(s).len() && trim_start_chars(s)[k] == c;
            assert(s.drop_first().contains(c));
            let m = choose|m: int| 0 <= m < s.drop_first().len() && s.drop_first()[m] == c;
            assert(s[m + 1] == c);
        }
    }
}

proof fn lemma_trim_end_ends(s: Seq<char>)
    ensures
        trim_end_chars(s).len() <= s.len(),
        trim_end_chars(s).len() > 0 ==> !is_white_space(trim_end_chars(s).last()),
        trim_end_chars(s) == s.take(trim_end_chars(s).len() as int),
    decreases s.len(),
{
    if s.len() > 0 && is_white_space(s.last()) {
        lemma_trim_end_ends(s.drop_last());
        assert(s.drop_last().take(trim_end_chars(s).len() as int) =~= s.take(
            trim_end_chars(s).len() as int,
        ));
    } else {
        assert(s.take(s.len() as int) =~= s);
    }
}

/// What `trim_chars` gives back is empty or starts and ends with a character
/// other than white space, and holds no character that `s` does not hold.
pub proof fn lemma_trim_chars(s: Seq<char>)
    ensures
        trim_chars(s).len() > 0 ==> !is_white_space(trim_chars(s)[0]),
        trim_chars(s).len() > 0 ==> !is_white_space(trim_chars(s).last()),
        forall|c: char| trim_chars(s).contains(c) ==> s.contains(c),
{
    let u = trim_start_chars(s);
    lemma_trim_start_ends(s);
    lemma_trim_end_ends(u);
    let t = trim_chars(s);
    assert(t == u.take(t.len() as int));
    if t.len() > 0 {
        assert(t[0] == u[0]);
    }
    assert forall|c: char| t.contains(c) implies s.contains(c) by {
        let k = choose|k: int| 0 <= k < t.len() && t[k] == c;
        assert(t[k] == u[k]);
        assert(u.contains(c));
    }
}

/// `comma_pieces` gives at least one piece, and no piece holds a comma.
pub proof fn lemma_comma_pieces_have_no_comma(s: Seq<char>)
    ensures
        comma_pieces(s).len() >= 1,
        forall|k: int| 0 <= k < comma_pieces(s).len() ==> !(#[trigger] comma_pieces(s)[k]).contains(','),
    decreases s.len(),
{
    if s.len() > 0 {
        let rest = comma_pieces(s.drop_first());
        lemma_comma_pieces_have_no_comma(s.drop_first());
        if s[0] != ',' {
            let first = seq![s[0]] + rest[0];
            assert(!first.contains(',')) by {
                if first.contains(',') {
                    let m = choose|m: int| 0 <= m < first.len() && first[m] == ',';
                    assert(rest[0][m - 1] == ',');
                    assert(rest[0].contains(','));
                }
            }
            assert forall|k: int| 0 <= k < comma_pieces(s).len() implies !(
            #[trigger] comma_pieces(s)[k]).contains(',') by {
                if k > 0 {
                    assert(comma_pieces(s)[k] == rest[k]);
                }
            }
        } else {
            assert forall|k: int| 0 <= k < comma_pieces(s).len() implies !(
            #[trigger] comma_pieces(s)[k]).contains(',') by {
                if k > 0 {
                    assert(comma_pieces(s)[k] == rest[k - 1]);
                }
            }
        }
    }
}

proof fn lemma_tags_from_pieces_clean(pieces: Seq<Seq<char>>)
    requires
        forall|k: int| 0 <= k < pieces.len() ==> !(#[trigger] pieces[k]).contains(','),
    ensures
        forall|k: int|
            0 <= k < tags_from_pieces(pieces).len() ==> is_clean_tag(
                #[trigger] tags_from_pieces(pieces)[k],
            ),
    decreases pieces.len(),
{
    if pieces.len() > 0 {
        let earlier = tags_from_pieces(pieces.drop_last());
        lemma_tags_from_pieces_clean(pieces.drop_last());
        let tag = trim_chars(pieces.last());
        lemma_trim_chars(pieces.last());
        assert(!pieces[pieces.len() - 1].contains(','));
        assert(tag.contains(',') ==> pieces.last().contains(','));
        if tag.len() > 0 {
            assert(is_clean_tag(tag));
            assert(tags_from_pieces(pieces) == earlier.push(tag));
            assert forall|k: int|
                0 <= k < tags_from_pieces(pieces).len() implies is_clean_tag(
                #[trigger] tags_from_pieces(pieces)[k],
            ) by {
                if k < earlier.len() {
                    assert(tags_from_pieces(pieces)[k] == earlier[k]);
                }
            }
        }
    }
}

/// Law: every tag read from a tag field is clean: not empty, not starting or
/// ending with white space, without a comma.
pub proof fn lemma_parsed_tags_are_clean(field: Seq<char>)
    ensures
        forall|k: int|
            0 <= k < parsed_tags(field).len() ==> is_clean_tag(#[trigger] parsed_tags(field)[k]),
{
    lemma_comma_pieces_have_no_comma(field);
    lemma_tags_from_pieces_clean(comma_pieces(field));
}

proof fn lemma_comma_pieces_without_comma(a: Seq<char>)
    requires
        !a.contains(','),
    ensures
        comma_pieces(a) == seq![a],
    decreases a.len(),
{
    if a.len() > 0 {
        assert(a[0] != ',');
        assert(!a.drop_first().contains(',')) by {
            if a.drop_first().contains(',') {
                let m = choose|m: int| 0 <= m < a.drop_first().len() && a.drop_first()[m] == ',';
                assert(a[m + 1] == ',');
            }
        }
        lemma_comma_pieces_without_comma(a.drop_first());
        assert(seq![a[0]] + a.drop_first() =~= a);
        assert(comma_pieces(a) == seq![a.drop_first()].update(0, seq![a[0]] + a.drop_first()));
        assert(comma_pieces(a) =~= seq![a]);
    } else {
        assert(a =~= Seq::<char>::empty());
    }
}

proof fn lemma_comma_pieces_concat(x: Seq<char>, y: Seq<char>)
    ensures
        comma_pieces(x + seq![','] + y) == comma_pieces(x) + comma_pieces(y),
    decreases x.len(),
{
    let s = x + seq![','] + y;
    if x.len() == 0 {
        assert(s.drop_first() == y);
    } else {
        let x1 = x.drop_first();
        assert(s.drop_first() == x1 + seq![','] + y);
        lemma_comma_pieces_concat(x1, y);
        lemma_comma_pieces_have_no_comma(x1);
        if x[0] == ',' {
            assert(comma_pieces(s) == seq![Seq::<char>::empty()] + (comma_pieces(x1) + comma_pieces(y)));
        } else {
            let rest = comma_pieces(x1) + comma_pieces(y);
            assert(comma_pieces(s) == rest.update(0, seq![x[0]] + rest[0]));
            assert(rest[0] == comma_pieces(x1)[0]);
            assert(rest.update(0, seq![x[0]] + rest[0]) == comma_pieces(x1).update(
                0,
                seq![x[0]] + comma_pieces(x1)[0],
            ) + comma_pieces(y));
        }
    }
}

/// The pieces between the commas of tags joined by `", "`: the first tag,
/// then each further tag behind a space.
spec fn joined_pieces(tags: Seq<Seq<char>>) -> Seq<Seq<char>>
    decreases tags.len(),
{
    if tags.len() == 0 {
        seq![Seq::<char>::empty()]
    } else if tags.len() == 1 {
        seq![tags[0]]
    } else {
        joined_pieces(tags.drop_last()).push(seq![' '] + tags.last())
    }
}

proof fn lemma_comma_pieces_of_joined(tags: Seq<Seq<char>>)
    requires
        forall|k: int| 0 <= k < tags.len() ==> is_clean_tag(#[trigger] tags[k]),
    ensures
        comma_pieces(joined(tags, tag_separator())) == joined_pieces(tags),
    decreases tags.len(),
{
    if tags.len() == 1 {
        assert(is_clean_tag(tags[0]));
        lemma_comma_pieces_without_comma(tags[0]);
    } else if tags.len() >= 2 {
        let init = tags.drop_last();
        let last = tags.last();
        assert(is_clean_tag(tags[tags.len() - 1]));
        lemma_comma_pieces_of_joined(init);
        let spaced = seq![' '] + last;
        assert(!spaced.contains(',')) by {
            if spaced.contains(',') {
                let m = choose|m: int| 0 <= m < spaced.len() && spaced[m] == ',';
                assert(last[m - 1] == ',');
            }
        }
        lemma_comma_pieces_without_comma(spaced);
        assert(joined(tags, tag_separator()) == joined(init, tag_separator()) + seq![','] + spaced);
        lemma_comma_pieces_concat(joined(init, tag_separator()), spaced);
    }
}

proof fn lemma_clean_tag_trims_to_itself(t: Seq<char>)
    requires
        is_clean_tag(t),
    ensures
        trim_chars(t) == t,
        trim_chars(seq![' '] + t) == t,
{
    let spaced = seq![' '] + t;
    assert(spaced.drop_first() =~= t);
    assert(is_white_space(spaced[0]));
    assert(trim_start_chars(spaced) == trim_start_chars(t));
}

proof fn lemma_tags_from_joined_pieces(tags: Seq<Seq<char>>)
    requires
        forall|k: int| 0 <= k < tags.len() ==> is_clean_tag(#[trigger] tags[k]),
    ensures
        tags_from_pieces(joined_pieces(tags)) == tags,
    decreases tags.len(),
{
    let empty = Seq::<char>::empty();
    if tags.len() == 0 {
        assert(trim_chars(empty) == empty);
        assert(seq![empty].drop_last() =~= Seq::<Seq<char>>::empty());
        assert(tags_from_pieces(seq![empty]) == tags_from_pieces(Seq::<Seq<char>>::empty()));
        assert(tags =~= Seq::<Seq<char>>::empty());
    } else if tags.len() == 1 {
        let t = tags[0];
        assert(is_clean_tag(t));
        lemma_clean_tag_trims_to_itself(t);
        assert(seq![t].drop_last() =~= Seq::<Seq<char>>::empty());
        assert(seq![t].last() == t);
        assert(tags_from_pieces(Seq::<Seq<char>>::empty()) == Seq::<Seq<char>>::empty());
        assert(tags_from_pieces(seq![t]) == Seq::<Seq<char>>::empty().push(t));
        assert(tags =~= seq![t]);
    } else {
        let init = tags.drop_last();
        let t = tags.last();
        assert(is_clean_tag(tags[tags.len() - 1]));
        lemma_tags_from_joined_pieces(init);
        lemma_clean_tag_trims_to_itself(t);
        let pieces = joined_pieces(tags);
        assert(pieces == joined_pieces(init).push(seq![' '] + t));
        assert(pieces.drop_last() =~= joined_pieces(init));
        assert(pieces.last() == seq![' '] + t);
        assert(tags_from_pieces(pieces) == init.push(t));
        assert(init.push(t) =~= tags);
    }
}

/// Law: tags shown in one line and read back from the tag field come back
/// as they were, when each is clean (as every tag read from a field is, see
/// `lemma_parsed_tags_are_clean`).
pub proof fn lemma_joined_tags_read_back(tags: Seq<Seq<char>>)
    requires
        forall|k: int| 0 <= k < tags.len() ==> is_clean_tag(#[trigger] tags[k]),
    ensures
        parsed_tags(joined(tags, tag_separator())) == tags,
{
    lemma_comma_pieces_of_joined(tags);
    lemma_tags_from_joined_pieces(tags);
}

proof fn lemma_trim_start_empty(s: Seq<char>)
    ensures
        trim_start_chars(s).len() == 0 <==> forall|i: int| 0 <= i < s.len() ==> is_white_space(
            #[trigger] s[i],
        ),
    decreases s.len(),
{
    if s.len() > 0 {
        lemma_trim_start_empty(s.drop_first());
        if is_white_space(s[0]) {
            assert forall|i: int|
                0 <= i < s.len() && (forall|k: int|
                    0 <= k < s.drop_first().len() ==> is_white_space(
                        #[trigger] s.drop_first()[k],
                    )) implies is_white_space(#[trigger] s[i]) by {
                if i > 0 {
                    assert(s[i] == s.drop_first()[i - 1]);
                }
            }
            if forall|i: int| 0 <= i < s.len() ==> is_white_space(#[trigger] s[i]) {
                assert forall|k: int| 0 <= k < s.drop_first().len() implies is_white_space(
                    #[trigger] s.drop_first()[k],
                ) by {
                    assert(s.drop_first()[k] == s[k + 1]);
                }
            }
        }
    }
}

proof fn lemma_trim_end_empty(s: Seq<char>)
    requires
        trim_end_chars(s).len() == 0,
    ensures
        forall|i: int| 0 <= i < s.len() ==> is_white_space(#[trigger] s[i]),
    decreases s.len(),
{
    if s.len() > 0 {
        assert(is_white_space(s.last()));
        lemma_trim_end_empty(s.drop_last());
        assert forall|i: int| 0 <= i < s.len() implies is_white_space(#[trigger] s[i]) by {
            if i < s.len() - 1 {
                assert(s[i] == s.drop_last()[i]);
            }
        }
    }
}

/// Law: a text is blank exactly when every one of its characters is white
/// space, whatever its length.
pub proof fn lemma_blank_iff_all_white_space(s: Seq<char>)
    ensures
        is_blank(s) <==> forall|i: int| 0 <= i < s.len() ==> is_white_space(#[trigger] s[i]),
{
    let u = trim_start_chars(s);
    lemma_trim_start_empty(s);
    lemma_trim_start_ends(s);
    if is_blank(s) {
        lemma_trim_end_empty(u);
        if u.len() > 0 {
            assert(is_white_space(u[0]));
        }
    } else {
        if u.len() == 0 {
            assert(trim_end_chars(u) == u);
        }
    }
}

} // verus!
