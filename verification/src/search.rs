//! The cloud search form: reading its fields into a search.
use vstd::prelude::*;
use crate::culling::{Filters, FiltersView, opt_list_view};
use crate::metadata::{fields_view, find_key, key_position, keyword_pieces, split_trimmed};
use crate::numbers::{parse_u8, spec_parse_u8};
use crate::text::{chars_eq, chars_of, split_on, string_of, trim, trim_str};

verus! {

/// The trimmed text of the form's field `key`; nothing when the form has
/// no such field.
pub open spec fn field_value(f: Seq<(String, String, String)>, key: Seq<char>) -> Seq<char> {
    let p = find_key(fields_view(f), key);
    if p >= 0 {
        trim(f[p].2@)
    } else {
        Seq::empty()
    }
}

/// A comma-separated list field: none when empty, else its trimmed,
/// non-empty items.
pub open spec fn list_value(s: Seq<char>) -> Option<Seq<Seq<char>>> {
    if s.len() == 0 {
        None
    } else {
        Some(keyword_pieces(split_on(s, ',')))
    }
}

/// Why a search form was refused.
#[derive(Debug, PartialEq)]
pub enum FilterError {
    /// "Edited" is none of any, yes and no.
    Edited,
    /// The content choice is none of all, safe and flagged.
    Content,
    /// The rating is not a number from 0 to 255.
    RatingNotANumber,
    /// The rating is above 5.
    RatingRange,
    /// The map bounds were refused, with why.
    Bounds(String),
    /// A date was refused, with why.
    Date(String),
    /// The "after" date is later than the "before" one.
    DateOrder,
}

/// What the search form asks, or why it is refused: `bounds`, `after` and
/// `before` are what reading the map bounds and the two dates gave. The
/// fields are checked in the form's order: edited, content, rating,
/// bounds, dates.
pub open spec fn spec_parse_filters(
    f: Seq<(String, String, String)>,
    bounds: Result<(), String>,
    after: Result<Option<i64>, String>,
    before: Result<Option<i64>, String>,
) -> Result<FiltersView, FilterError> {
    let edited = field_value(f, "cloud-edited"@);
    let content = field_value(f, "cloud-content"@);
    let rating = field_value(f, "cloud-rating"@);
    if !(edited == "any"@ || edited.len() == 0 || edited == "yes"@ || edited == "no"@) {
        Err(FilterError::Edited)
    } else if !(content == "all"@ || content.len() == 0 || content == "safe"@ || content == "flagged"@) {
        Err(FilterError::Content)
    } else if rating.len() > 0 && spec_parse_u8(rating) is None {
        Err(FilterError::RatingNotANumber)
    } else if rating.len() > 0 && spec_parse_u8(rating)->0 > 5 {
        Err(FilterError::RatingRange)
    } else {
        match (bounds, after, before) {
            (Err(e), _, _) => Err(FilterError::Bounds(e)),
            (Ok(_), Err(e), _) => Err(FilterError::Date(e)),
            (Ok(_), Ok(_), Err(e)) => Err(FilterError::Date(e)),
            (Ok(_), Ok(a), Ok(b)) => if a is Some && b is Some && a->0 > b->0 {
                Err(FilterError::DateOrder)
            } else {
                Ok(
                    FiltersView {
                        person_id: None,
                        mime_types: list_value(field_value(f, "cloud-types"@)),
                        tags: list_value(field_value(f, "cloud-tags"@)),
                        edited: if edited == "yes"@ {
                            Some(true)
                        } else if edited == "no"@ {
                            Some(false)
                        } else {
                            None
                        },
                        content: if content == "safe"@ || content == "flagged"@ {
                            Some(content)
                        } else {
                            None
                        },
                        min_rating: if rating.len() > 0 { spec_parse_u8(rating) } else { None },
                        captured_after: a,
                        captured_before: b,
                        flag: None,
                        label: None,
                    },
                )
            },
        }
    }
}

pub fn get_field(fields: &Vec<(String, String, String)>, key: &str) -> (r: Vec<char>)
    ensures
        r@ == field_value(fields@, key@),
{
    match key_position(fields, key) {
        Some(p) => trim_str(fields[p].2.as_str()),
        None => Vec::new(),
    }
}

pub fn is(s: &Vec<char>, lit: &str) -> (r: bool)
    ensures
        r == (s@ == lit@),
{
    let l = chars_of(lit);
    chars_eq(s.as_slice(), l.as_slice())
}

fn get_list(fields: &Vec<(String, String, String)>, key: &str) -> (r: Option<Vec<String>>)
    ensures
        opt_list_view(r) == list_value(field_value(fields@, key@)),
{
    let v = get_field(fields, key);
    if v.len() == 0 {
        return None;
    }
    let s = string_of(v.as_slice());
    let items = split_trimmed(s.as_str(), ',');
    assert(items.deep_view() =~= items@.map_values(|x: String| x@));
    Some(items)
}

/// Read the search form: its fields, and what reading its map bounds and
/// dates gave.
pub fn parse_filters(
    fields: &Vec<(String, String, String)>,
    bounds: Result<(), String>,
    after: Result<Option<i64>, String>,
    before: Result<Option<i64>, String>,
) -> (r: Result<Filters, FilterError>)
    ensures
        match r {
            Ok(filters) => spec_parse_filters(fields@, bounds, after, before) == Ok::<FiltersView, FilterError>(filters@),
            Err(e) => spec_parse_filters(fields@, bounds, after, before) == Err::<FiltersView, FilterError>(e),
        },
{
    proof {
        reveal_strlit("any");
        reveal_strlit("yes");
        reveal_strlit("no");
        reveal_strlit("all");
        reveal_strlit("safe");
        reveal_strlit("flagged");
        assert("any"@[0] != "yes"@[0] && "any"@[0] != "no"@[0]);
        assert("all"@[0] != "safe"@[0] && "all"@[0] != "flagged"@[0]);
    }
    let edited_text = get_field(fields, "cloud-edited");
    let edited = if is(&edited_text, "any") || edited_text.len() == 0 {
        None
    } else if is(&edited_text, "yes") {
        Some(true)
    } else if is(&edited_text, "no") {
        Some(false)
    } else {
        return Err(FilterError::Edited);
    };
    let content_text = get_field(fields, "cloud-content");
    let content = if is(&content_text, "all") || content_text.len() == 0 {
        None
    } else if is(&content_text, "safe") || is(&content_text, "flagged") {
        Some(string_of(content_text.as_slice()))
    } else {
        return Err(FilterError::Content);
    };
    let rating = get_field(fields, "cloud-rating");
    let min_rating = if rating.len() == 0 {
        None
    } else {
        match parse_u8(rating.as_slice()) {
            None => return Err(FilterError::RatingNotANumber),
            Some(r) => {
                if r > 5 {
                    return Err(FilterError::RatingRange);
                }
                Some(r)
            },
        }
    };
    if let Err(e) = bounds {
        return Err(FilterError::Bounds(e));
    }
    let captured_after = match after {
        Ok(a) => a,
        Err(e) => return Err(FilterError::Date(e)),
    };
    let captured_before = match before {
        Ok(b) => b,
        Err(e) => return Err(FilterError::Date(e)),
    };
    if let (Some(a), Some(b)) = (captured_after, captured_before) {
        if a > b {
            return Err(FilterError::DateOrder);
        }
    }
    let mime_types = get_list(fields, "cloud-types");
    let tags = get_list(fields, "cloud-tags");
    let r = Filters {
            person_id: None,
            mime_types,
            tags,
            edited,
            content,
            min_rating,
            captured_after,
            captured_before,
            flag: None,
            label: None,
        };
    let ghost sp = spec_parse_filters(fields@, bounds, after, before);
    assert(sp is Ok);
    assert(sp->Ok_0.edited == r@.edited);
    assert(sp->Ok_0.content == r@.content);
    assert(sp->Ok_0 == r@);
    Ok(r)
}

/// What a search asks of each photo, read off the form: "Edited" yes asks
/// for edited photos only, no for unedited ones only, and any (or
/// nothing) for both, and any other choice refuses the form; "Content"
/// safe or flagged asks for that screening result, all (or nothing) for
/// any; a rating asks for at least that many stars, never more than five;
/// the capture dates are the ones read, never after before before; and a
/// refused map bounds refuses the form.
pub proof fn lemma_search_reads_the_form(
    f: Seq<(String, String, String)>,
    bounds: Result<(), String>,
    after: Result<Option<i64>, String>,
    before: Result<Option<i64>, String>,
)
    ensures
        ({
            let edited = field_value(f, "cloud-edited"@);
            let content = field_value(f, "cloud-content"@);
            let rating = field_value(f, "cloud-rating"@);
            let r = spec_parse_filters(f, bounds, after, before);
            &&& (r matches Err(FilterError::Edited)) <==> !(edited == "any"@ || edited.len() == 0 || edited == "yes"@
                || edited == "no"@)
            &&& r matches Ok(v) ==> {
                &&& (v.edited == Some(false)) <==> edited == "no"@
                &&& (v.edited == Some(true)) <==> edited == "yes"@
                &&& v.edited is None <==> (edited == "any"@ || edited.len() == 0)
                &&& (v.content == Some("safe"@)) <==> content == "safe"@
                &&& (v.content == Some("flagged"@)) <==> content == "flagged"@
                &&& v.content is None <==> (content == "all"@ || content.len() == 0)
                &&& v.min_rating is None <==> rating.len() == 0
                &&& (v.min_rating matches Some(n) ==> n <= 5)
                &&& after == Ok::<Option<i64>, String>(v.captured_after)
                &&& before == Ok::<Option<i64>, String>(v.captured_before)
                &&& (v.captured_after is Some && v.captured_before is Some ==> v.captured_after->0 <= v.captured_before->0)
                &&& bounds is Ok
            }
            &&& bounds is Err ==> r is Err
            &&& (edited == "any"@ || edited.len() == 0 || edited == "yes"@ || edited == "no"@) && (content == "all"@
                || content.len() == 0 || content == "safe"@ || content == "flagged"@) ==> {
                &&& (r matches Err(FilterError::RatingNotANumber)) <==> (rating.len() > 0 && spec_parse_u8(rating) is None)
                &&& (r matches Err(FilterError::RatingRange)) <==> (rating.len() > 0 && spec_parse_u8(rating) is Some && spec_parse_u8(rating)->0 > 5)
            }
            &&& r matches Ok(v) ==> (v.min_rating matches Some(n) ==> spec_parse_u8(rating) == Some(n))
        }),
{
    reveal_strlit("any");
    reveal_strlit("yes");
    reveal_strlit("no");
    reveal_strlit("all");
    reveal_strlit("safe");
    reveal_strlit("flagged");
    assert("any"@.len() == 3 && "yes"@.len() == 3 && "no"@.len() == 2);
    assert("any"@[0] != "yes"@[0]);
    assert("all"@.len() == 3 && "safe"@.len() == 4 && "flagged"@.len() == 7);
}

} // verus!
