//! Culling decisions on cloud photos: ratings, pick/reject flags and colour
//! labels, the keys the cloud stores them under, the gallery filter that
//! selects by them, and the keyboard shortcuts that set them.
use vstd::prelude::*;
use crate::assets::Asset;
use crate::text::{chars_of, str_is};

verus! {

/// A photo's pick/reject flag.
#[derive(Clone, Copy, Debug, PartialEq, Eq, Structural)]
pub enum CullFlag {
    NoFlag,
    Pick,
    Reject,
}

/// A photo's colour label.
#[derive(Clone, Copy, Debug, PartialEq, Eq, Structural)]
pub enum ColourLabel {
    NoLabel,
    Red,
    Yellow,
    Green,
    Blue,
    Magenta,
}

/// The culling decisions on one photo.
#[derive(Clone, Copy, Debug, PartialEq, Eq, Structural)]
pub struct PhotoCulling {
    pub rating: u8,
    pub flag: CullFlag,
    pub label: ColourLabel,
}

/// Which photos the gallery shows: at least a rating, and, where given,
/// exactly a flag and exactly a label.
#[derive(Clone, Copy, Debug, PartialEq, Eq, Structural)]
pub struct CullFilter {
    pub minimum_rating: u8,
    pub flag: Option<CullFlag>,
    pub label: Option<ColourLabel>,
}

/// One culling change, as a shortcut or a menu makes it.
#[derive(Clone, Copy, Debug, PartialEq, Eq, Structural)]
pub enum CullEdit {
    Rating(u8),
    Flag(CullFlag),
    Label(ColourLabel),
}

/// The value of a cloud metadata patch for one culling field.
#[derive(Clone, Copy, Debug, PartialEq, Eq)]
pub enum PatchValue {
    Number(u8),
    Text(&'static str),
}

/// The flag a stored key names; anything unknown is no flag.
pub open spec fn spec_flag(v: Seq<char>) -> CullFlag {
    if v == "pick"@ {
        CullFlag::Pick
    } else if v == "reject"@ {
        CullFlag::Reject
    } else {
        CullFlag::NoFlag
    }
}

/// The label a stored key names; anything unknown is no label.
pub open spec fn spec_label(v: Seq<char>) -> ColourLabel {
    if v == "red"@ {
        ColourLabel::Red
    } else if v == "yellow"@ {
        ColourLabel::Yellow
    } else if v == "green"@ {
        ColourLabel::Green
    } else if v == "blue"@ {
        ColourLabel::Blue
    } else if v == "magenta"@ {
        ColourLabel::Magenta
    } else {
        ColourLabel::NoLabel
    }
}

/// The key the cloud stores a flag under.
pub open spec fn spec_flag_key(f: CullFlag) -> Seq<char> {
    match f {
        CullFlag::NoFlag => "none"@,
        CullFlag::Pick => "pick"@,
        CullFlag::Reject => "reject"@,
    }
}

/// The key the cloud stores a label under.
pub open spec fn spec_label_key(l: ColourLabel) -> Seq<char> {
    match l {
        ColourLabel::NoLabel => "none"@,
        ColourLabel::Red => "red"@,
        ColourLabel::Yellow => "yellow"@,
        ColourLabel::Green => "green"@,
        ColourLabel::Blue => "blue"@,
        ColourLabel::Magenta => "magenta"@,
    }
}

/// The flag that a stored key names.
pub fn flag(value: &str) -> (r: CullFlag)
    ensures
        r == spec_flag(value@),
{
    if str_is(value, "pick") {
        CullFlag::Pick
    } else if str_is(value, "reject") {
        CullFlag::Reject
    } else {
        CullFlag::NoFlag
    }
}

/// The label that a stored key names.
pub fn label(value: &str) -> (r: ColourLabel)
    ensures
        r == spec_label(value@),
{
    if str_is(value, "red") {
        ColourLabel::Red
    } else if str_is(value, "yellow") {
        ColourLabel::Yellow
    } else if str_is(value, "green") {
        ColourLabel::Green
    } else if str_is(value, "blue") {
        ColourLabel::Blue
    } else if str_is(value, "magenta") {
        ColourLabel::Magenta
    } else {
        ColourLabel::NoLabel
    }
}

/// The key a flag is stored under.
pub fn flag_key(flag: CullFlag) -> (r: &'static str)
    ensures
        r@ == spec_flag_key(flag),
{
    match flag {
        CullFlag::NoFlag => "none",
        CullFlag::Pick => "pick",
        CullFlag::Reject => "reject",
    }
}

/// The key a label is stored under.
pub fn label_key(label: ColourLabel) -> (r: &'static str)
    ensures
        r@ == spec_label_key(label),
{
    match label {
        ColourLabel::NoLabel => "none",
        ColourLabel::Red => "red",
        ColourLabel::Yellow => "yellow",
        ColourLabel::Green => "green",
        ColourLabel::Blue => "blue",
        ColourLabel::Magenta => "magenta",
    }
}

/// The culling decisions the cloud holds for a photo; ratings above five
/// count as five.
pub open spec fn spec_culling_value(rating: u8, flag: Seq<char>, label: Seq<char>) -> PhotoCulling {
    PhotoCulling {
        rating: if rating <= 5 { rating } else { 5 },
        flag: spec_flag(flag),
        label: spec_label(label),
    }
}

/// The culling decisions on a cloud photo.
pub fn culling_value(asset: &Asset) -> (r: PhotoCulling)
    ensures
        r == spec_culling_value(asset.rating, asset.flag@, asset.label@),
{
    PhotoCulling {
        rating: if asset.rating <= 5 { asset.rating } else { 5 },
        flag: flag(asset.flag.as_str()),
        label: label(asset.label.as_str()),
    }
}

/// The decisions a photo's culling badge shows: none for an undecided
/// photo (no rating, flag or label), which shows no badge.
pub open spec fn spec_badge(c: PhotoCulling) -> Option<PhotoCulling> {
    if c == (PhotoCulling { rating: 0, flag: CullFlag::NoFlag, label: ColourLabel::NoLabel }) {
        None
    } else {
        Some(c)
    }
}

/// The culling badge of a cloud photo, the same one the library's photos
/// carry: what it shows, or `None` where it shows none.
pub fn badge(asset: &Asset) -> (r: Option<PhotoCulling>)
    ensures
        r == spec_badge(spec_culling_value(asset.rating, asset.flag@, asset.label@)),
{
    let c = culling_value(asset);
    let undecided = c.rating == 0 && match c.flag {
        CullFlag::NoFlag => true,
        _ => false,
    } && match c.label {
        ColourLabel::NoLabel => true,
        _ => false,
    };
    if undecided {
        None
    } else {
        Some(c)
    }
}

impl CullFilter {
    /// The filter that shows every photo.
    pub open spec fn spec_all() -> CullFilter {
        CullFilter { minimum_rating: 0, flag: None, label: None }
    }

    /// Whether a photo with these decisions passes the filter.
    pub open spec fn spec_matches(self, c: PhotoCulling) -> bool {
        &&& c.rating >= self.minimum_rating
        &&& (self.flag matches Some(f) ==> f == c.flag)
        &&& (self.label matches Some(l) ==> l == c.label)
    }

    /// Whether a photo with these decisions passes the filter.
    pub fn matches(&self, c: PhotoCulling) -> (r: bool)
        ensures
            r == self.spec_matches(c),
    {
        if c.rating < self.minimum_rating {
            return false;
        }
        let flag_ok = match self.flag {
            Some(f) => f == c.flag,
            None => true,
        };
        let label_ok = match self.label {
            Some(l) => l == c.label,
            None => true,
        };
        flag_ok && label_ok
    }
}

impl Default for CullFilter {
    fn default() -> (r: CullFilter)
        ensures
            r == CullFilter::spec_all(),
    {
        CullFilter { minimum_rating: 0, flag: None, label: None }
    }
}

impl Default for PhotoCulling {
    fn default() -> (r: PhotoCulling)
        ensures
            r == (PhotoCulling { rating: 0, flag: CullFlag::NoFlag, label: ColourLabel::NoLabel }),
    {
        PhotoCulling { rating: 0, flag: CullFlag::NoFlag, label: ColourLabel::NoLabel }
    }
}

/// A cloud asset search: who, what kind, which tags, edited or not, which
/// screening result, and the culling constraints.
#[derive(Clone, Debug, PartialEq, Default)]
pub struct Filters {
    pub person_id: Option<String>,
    pub mime_types: Option<Vec<String>>,
    pub tags: Option<Vec<String>>,
    pub edited: Option<bool>,
    pub content: Option<String>,
    pub min_rating: Option<u8>,
    pub captured_after: Option<i64>,
    pub captured_before: Option<i64>,
    pub flag: Option<String>,
    pub label: Option<String>,
}

/// What a search asks, with its text by value.
pub struct FiltersView {
    pub person_id: Option<Seq<char>>,
    pub mime_types: Option<Seq<Seq<char>>>,
    pub tags: Option<Seq<Seq<char>>>,
    pub edited: Option<bool>,
    pub content: Option<Seq<char>>,
    pub min_rating: Option<u8>,
    pub captured_after: Option<i64>,
    pub captured_before: Option<i64>,
    pub flag: Option<Seq<char>>,
    pub label: Option<Seq<char>>,
}

pub open spec fn opt_view(o: Option<String>) -> Option<Seq<char>> {
    match o {
        Some(s) => Some(s@),
        None => None,
    }
}

pub open spec fn opt_list_view(o: Option<Vec<String>>) -> Option<Seq<Seq<char>>> {
    match o {
        Some(v) => Some(v.deep_view()),
        None => None,
    }
}

impl View for Filters {
    type V = FiltersView;

    open spec fn view(&self) -> FiltersView {
        FiltersView {
            person_id: opt_view(self.person_id),
            mime_types: opt_list_view(self.mime_types),
            tags: opt_list_view(self.tags),
            edited: self.edited,
            content: opt_view(self.content),
            min_rating: self.min_rating,
            captured_after: self.captured_after,
            captured_before: self.captured_before,
            flag: opt_view(self.flag),
            label: opt_view(self.label),
        }
    }
}

/// The culling part of a search.
pub open spec fn spec_culling_filter(f: FiltersView) -> CullFilter {
    CullFilter {
        minimum_rating: match f.min_rating {
            Some(r) => r,
            None => 0,
        },
        flag: match f.flag {
            Some(k) => Some(spec_flag(k)),
            None => None,
        },
        label: match f.label {
            Some(k) => Some(spec_label(k)),
            None => None,
        },
    }
}

/// A search with its culling part replaced and everything else kept; a
/// zero minimum rating is no constraint.
pub open spec fn spec_set_culling_filter(f: FiltersView, c: CullFilter) -> FiltersView {
    FiltersView {
        min_rating: if c.minimum_rating > 0 { Some(c.minimum_rating) } else { None },
        flag: match c.flag {
            Some(x) => Some(spec_flag_key(x)),
            None => None,
        },
        label: match c.label {
            Some(x) => Some(spec_label_key(x)),
            None => None,
        },
        ..f
    }
}

/// The culling part of a cloud search.
pub fn culling_filter(filters: &Filters) -> (r: CullFilter)
    ensures
        r == spec_culling_filter(filters@),
{
    CullFilter {
        minimum_rating: match filters.min_rating {
            Some(r) => r,
            None => 0,
        },
        flag: match &filters.flag {
            Some(k) => Some(flag(k.as_str())),
            None => None,
        },
        label: match &filters.label {
            Some(k) => Some(label(k.as_str())),
            None => None,
        },
    }
}

/// Replace the culling part of a cloud search, leaving its other
/// constraints alone.
pub fn set_culling_filter(filters: &mut Filters, filter: CullFilter)
    ensures
        final(filters)@ == spec_set_culling_filter(old(filters)@, filter),
{
    filters.min_rating = if filter.minimum_rating > 0 {
        Some(filter.minimum_rating)
    } else {
        None
    };
    filters.flag = match filter.flag {
        Some(f) => Some(String::from_str(flag_key(f))),
        None => None,
    };
    filters.label = match filter.label {
        Some(l) => Some(String::from_str(label_key(l))),
        None => None,
    };
}

/// The field and value of the cloud patch that makes an edit.
pub open spec fn spec_culling_patch(edit: CullEdit) -> (Seq<char>, Option<u8>, Seq<char>) {
    match edit {
        CullEdit::Rating(r) => ("rating"@, Some(r), Seq::empty()),
        CullEdit::Flag(f) => ("flag"@, None, spec_flag_key(f)),
        CullEdit::Label(l) => ("label"@, None, spec_label_key(l)),
    }
}

/// The field and value of the cloud patch that makes an edit.
pub fn culling_patch(edit: CullEdit) -> (r: (&'static str, PatchValue))
    ensures
        r.0@ == spec_culling_patch(edit).0,
        match r.1 {
            PatchValue::Number(n) => spec_culling_patch(edit).1 == Some(n),
            PatchValue::Text(t) => spec_culling_patch(edit).1 is None && t@
                == spec_culling_patch(edit).2,
        },
{
    match edit {
        CullEdit::Rating(rating) => ("rating", PatchValue::Number(rating)),
        CullEdit::Flag(f) => ("flag", PatchValue::Text(flag_key(f))),
        CullEdit::Label(l) => ("label", PatchValue::Text(label_key(l))),
    }
}

/// The culling edit a single key makes in the gallery: `0`–`5` rate, `p`,
/// `x` and `u` pick, reject and unflag, `6`–`9` and `m` label red, yellow,
/// green, blue and magenta, `l` clears the label.
pub open spec fn spec_shortcut(key: Seq<char>) -> Option<CullEdit> {
    if key.len() != 1 {
        None
    } else {
        let c = key[0];
        if '0' <= c && c <= '5' {
            Some(CullEdit::Rating((c as u32 - '0' as u32) as u8))
        } else if c == 'p' {
            Some(CullEdit::Flag(CullFlag::Pick))
        } else if c == 'x' {
            Some(CullEdit::Flag(CullFlag::Reject))
        } else if c == 'u' {
            Some(CullEdit::Flag(CullFlag::NoFlag))
        } else if c == '6' {
            Some(CullEdit::Label(ColourLabel::Red))
        } else if c == '7' {
            Some(CullEdit::Label(ColourLabel::Yellow))
        } else if c == '8' {
            Some(CullEdit::Label(ColourLabel::Green))
        } else if c == '9' {
            Some(CullEdit::Label(ColourLabel::Blue))
        } else if c == 'm' {
            Some(CullEdit::Label(ColourLabel::Magenta))
        } else if c == 'l' {
            Some(CullEdit::Label(ColourLabel::NoLabel))
        } else {
            None
        }
    }
}

/// The culling edit a key makes, if any.
pub fn shortcut(key: &str) -> (r: Option<CullEdit>)
    ensures
        r == spec_shortcut(key@),
{
    let k = chars_of(key);
    if k.len() != 1 {
        return None;
    }
    let c = k[0];
    if '0' <= c && c <= '5' {
        let n: u32 = (c as u32) - ('0' as u32);
        Some(CullEdit::Rating(n as u8))
    } else if c == 'p' {
        Some(CullEdit::Flag(CullFlag::Pick))
    } else if c == 'x' {
        Some(CullEdit::Flag(CullFlag::Reject))
    } else if c == 'u' {
        Some(CullEdit::Flag(CullFlag::NoFlag))
    } else if c == '6' {
        Some(CullEdit::Label(ColourLabel::Red))
    } else if c == '7' {
        Some(CullEdit::Label(ColourLabel::Yellow))
    } else if c == '8' {
        Some(CullEdit::Label(ColourLabel::Green))
    } else if c == '9' {
        Some(CullEdit::Label(ColourLabel::Blue))
    } else if c == 'm' {
        Some(CullEdit::Label(ColourLabel::Magenta))
    } else if c == 'l' {
        Some(CullEdit::Label(ColourLabel::NoLabel))
    } else {
        None
    }
}

/// Reading back the key a flag is stored under gives the same flag.
pub proof fn lemma_flag_key_roundtrip(f: CullFlag)
    ensures
        spec_flag(spec_flag_key(f)) == f,
{
    reveal_strlit("none");
    reveal_strlit("pick");
    reveal_strlit("reject");
    assert("none"@[0] != "pick"@[0]);
    assert("none"@.len() != "reject"@.len());
}

/// Reading back the key a label is stored under gives the same label.
pub proof fn lemma_label_key_roundtrip(l: ColourLabel)
    ensures
        spec_label(spec_label_key(l)) == l,
{
    reveal_strlit("none");
    reveal_strlit("red");
    reveal_strlit("yellow");
    reveal_strlit("green");
    reveal_strlit("blue");
    reveal_strlit("magenta");
    assert("none"@.len() != "red"@.len());
    assert("none"@.len() != "yellow"@.len());
    assert("none"@[0] != "blue"@[0]);
    assert("none"@.len() != "green"@.len());
    assert("none"@.len() != "magenta"@.len());
    assert("red"@.len() != "yellow"@.len());
    assert("red"@.len() != "green"@.len());
    assert("red"@.len() != "blue"@.len());
    assert("red"@.len() != "magenta"@.len());
    assert("yellow"@.len() != "green"@.len());
    assert("yellow"@[0] != "blue"@[0]);
    assert("yellow"@.len() != "magenta"@.len());
    assert("green"@.len() != "blue"@.len());
    assert("green"@.len() != "magenta"@.len());
    assert("blue"@.len() != "magenta"@.len());
}

/// Setting a culling filter and reading it back gives the same filter.
pub proof fn lemma_culling_filter_roundtrip(f: FiltersView, c: CullFilter)
    ensures
        spec_culling_filter(spec_set_culling_filter(f, c)) == c,
{
    if let Some(x) = c.flag {
        lemma_flag_key_roundtrip(x);
    }
    if let Some(x) = c.label {
        lemma_label_key_roundtrip(x);
    }
}

/// Resetting the culling filter to show everything keeps every other search
/// constraint, and takes a search that had no culling constraint back to
/// itself.
pub proof fn lemma_culling_reset_preserves_search(f: FiltersView)
    ensures
        ({
            let g = spec_set_culling_filter(f, CullFilter::spec_all());
            &&& g.person_id == f.person_id
            &&& g.mime_types == f.mime_types
            &&& g.tags == f.tags
            &&& g.edited == f.edited
            &&& g.content == f.content
            &&& g.captured_after == f.captured_after
            &&& g.captured_before == f.captured_before
            &&& g.min_rating is None
            &&& g.flag is None
            &&& g.label is None
            &&& (f.min_rating is None && f.flag is None && f.label is None ==> g == f)
        }),
{
}

/// The culling shortcuts: 0 to 5 rate the photo that many stars; P picks
/// it, X rejects it and U clears its flag; 6, 7, 8 and 9 label it red,
/// yellow, green and blue, M magenta, and L clears its label. A key of
/// more or fewer than one character is none of them.
pub proof fn lemma_culling_shortcuts(key: Seq<char>)
    ensures
        spec_shortcut("0"@) == Some(CullEdit::Rating(0)),
        spec_shortcut("1"@) == Some(CullEdit::Rating(1)),
        spec_shortcut("2"@) == Some(CullEdit::Rating(2)),
        spec_shortcut("3"@) == Some(CullEdit::Rating(3)),
        spec_shortcut("4"@) == Some(CullEdit::Rating(4)),
        spec_shortcut("5"@) == Some(CullEdit::Rating(5)),
        spec_shortcut("p"@) == Some(CullEdit::Flag(CullFlag::Pick)),
        spec_shortcut("x"@) == Some(CullEdit::Flag(CullFlag::Reject)),
        spec_shortcut("u"@) == Some(CullEdit::Flag(CullFlag::NoFlag)),
        spec_shortcut("6"@) == Some(CullEdit::Label(ColourLabel::Red)),
        spec_shortcut("7"@) == Some(CullEdit::Label(ColourLabel::Yellow)),
        spec_shortcut("8"@) == Some(CullEdit::Label(ColourLabel::Green)),
        spec_shortcut("9"@) == Some(CullEdit::Label(ColourLabel::Blue)),
        spec_shortcut("m"@) == Some(CullEdit::Label(ColourLabel::Magenta)),
        spec_shortcut("l"@) == Some(CullEdit::Label(ColourLabel::NoLabel)),
        key.len() != 1 ==> spec_shortcut(key) is None,
{
    reveal_strlit("0");
    reveal_strlit("1");
    reveal_strlit("2");
    reveal_strlit("3");
    reveal_strlit("4");
    reveal_strlit("5");
    reveal_strlit("p");
    reveal_strlit("x");
    reveal_strlit("u");
    reveal_strlit("6");
    reveal_strlit("7");
    reveal_strlit("8");
    reveal_strlit("9");
    reveal_strlit("m");
    reveal_strlit("l");
}

/// The cloud's culling metadata by name: "pick" and "reject" are the two
/// flags and "none" or anything else is no flag; "red", "yellow",
/// "green", "blue" and "magenta" are the labels and anything else is no
/// label; each flag and label is stored under its own name. A rating is
/// kept up to five stars and counts as five above. A patch sets the
/// "rating" to the stars, or the "flag" or "label" to the stored name.
pub proof fn lemma_culling_metadata(rating: u8, flag: Seq<char>, label: Seq<char>)
    ensures
        spec_flag("pick"@) == CullFlag::Pick,
        spec_flag("reject"@) == CullFlag::Reject,
        spec_flag("none"@) == CullFlag::NoFlag,
        spec_label("red"@) == ColourLabel::Red,
        spec_label("yellow"@) == ColourLabel::Yellow,
        spec_label("green"@) == ColourLabel::Green,
        spec_label("blue"@) == ColourLabel::Blue,
        spec_label("magenta"@) == ColourLabel::Magenta,
        spec_label("none"@) == ColourLabel::NoLabel,
        spec_flag_key(CullFlag::Pick) == "pick"@ && spec_flag_key(CullFlag::Reject) == "reject"@
            && spec_flag_key(CullFlag::NoFlag) == "none"@,
        spec_label_key(ColourLabel::Red) == "red"@ && spec_label_key(ColourLabel::Yellow) == "yellow"@
            && spec_label_key(ColourLabel::Green) == "green"@ && spec_label_key(ColourLabel::Blue) == "blue"@
            && spec_label_key(ColourLabel::Magenta) == "magenta"@ && spec_label_key(ColourLabel::NoLabel) == "none"@,
        rating <= 5 ==> spec_culling_value(rating, flag, label).rating == rating,
        rating > 5 ==> spec_culling_value(rating, flag, label).rating == 5,
        spec_culling_value(rating, flag, label).flag == spec_flag(flag),
        spec_culling_value(rating, flag, label).label == spec_label(label),
        spec_culling_patch(CullEdit::Rating(rating)) == ("rating"@, Some(rating), Seq::<char>::empty()),
        forall|f: CullFlag| #[trigger] spec_culling_patch(CullEdit::Flag(f)) == ("flag"@, None::<u8>, spec_flag_key(f)),
        forall|l: ColourLabel| #[trigger] spec_culling_patch(CullEdit::Label(l)) == ("label"@, None::<u8>, spec_label_key(l)),
{
    reveal_strlit("pick");
    reveal_strlit("reject");
    reveal_strlit("none");
    reveal_strlit("red");
    reveal_strlit("yellow");
    reveal_strlit("green");
    reveal_strlit("blue");
    reveal_strlit("magenta");
    reveal_strlit("rating");
    reveal_strlit("flag");
    reveal_strlit("label");
    assert("pick"@.len() == 4 && "reject"@.len() == 6 && "none"@.len() == 4 && "red"@.len() == 3 && "yellow"@.len() == 6 && "green"@.len() == 5 && "blue"@.len() == 4 && "magenta"@.len() == 7 && "rating"@.len() == 6 && "flag"@.len() == 4 && "label"@.len() == 5);
    assert("pick"@[0] != "none"@[0] && "red"@[0] != "none"@[0]);
    assert("green"@[0] != "blue"@[0]);
}

} // verus!
