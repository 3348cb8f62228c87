//! The photo metadata form, for local photos and cloud photos alike: six
//! fields (keywords, caption, copyright, capture time, time offset, GPS),
//! each applied only when checked. Typing a changed value checks its
//! field; the absolute capture time and the offset exclude each other.
use vstd::prelude::*;
use crate::numbers::{parse_i64, spec_parse_i64};
use crate::text::{str_is, chars_of, string_of, split_chars, trim_chars, split_on, trim, trim_str, is_ws, lemma_trim, lemma_split_on_no_sep};

verus! {

/// Field `i` of the local form.
pub open spec fn library_id(i: int) -> Seq<char> {
    if i == 0 {
        "metadata-keywords"@
    } else if i == 1 {
        "metadata-caption"@
    } else if i == 2 {
        "metadata-copyright"@
    } else if i == 3 {
        "metadata-taken"@
    } else if i == 4 {
        "metadata-offset"@
    } else {
        "metadata-gps"@
    }
}

/// Field `i` of the cloud form.
pub open spec fn cloud_field_id(i: int) -> Seq<char> {
    if i == 0 {
        "cloud-meta-keywords"@
    } else if i == 1 {
        "cloud-meta-caption"@
    } else if i == 2 {
        "cloud-meta-copyright"@
    } else if i == 3 {
        "cloud-meta-taken"@
    } else if i == 4 {
        "cloud-meta-offset"@
    } else {
        "cloud-meta-gps"@
    }
}

/// Check box `i` of the cloud form.
pub open spec fn cloud_check_id(i: int) -> Seq<char> {
    if i == 0 {
        "cloud-check-keywords"@
    } else if i == 1 {
        "cloud-check-caption"@
    } else if i == 2 {
        "cloud-check-copyright"@
    } else if i == 3 {
        "cloud-check-taken"@
    } else if i == 4 {
        "cloud-check-offset"@
    } else {
        "cloud-check-gps"@
    }
}

/// The first of six names that `id` is, or -1.
pub open spec fn index_in(id: Seq<char>, names: spec_fn(int) -> Seq<char>) -> int {
    if id == names(0) {
        0
    } else if id == names(1) {
        1
    } else if id == names(2) {
        2
    } else if id == names(3) {
        3
    } else if id == names(4) {
        4
    } else if id == names(5) {
        5
    } else {
        -1
    }
}

pub fn library_field_id(i: usize) -> (r: &'static str)
    requires
        i < 6,
    ensures
        r@ == library_id(i as int),
{
    if i == 0 {
        "metadata-keywords"
    } else if i == 1 {
        "metadata-caption"
    } else if i == 2 {
        "metadata-copyright"
    } else if i == 3 {
        "metadata-taken"
    } else if i == 4 {
        "metadata-offset"
    } else {
        "metadata-gps"
    }
}

pub fn cloud_field(i: usize) -> (r: &'static str)
    requires
        i < 6,
    ensures
        r@ == cloud_field_id(i as int),
{
    if i == 0 {
        "cloud-meta-keywords"
    } else if i == 1 {
        "cloud-meta-caption"
    } else if i == 2 {
        "cloud-meta-copyright"
    } else if i == 3 {
        "cloud-meta-taken"
    } else if i == 4 {
        "cloud-meta-offset"
    } else {
        "cloud-meta-gps"
    }
}

pub fn cloud_check(i: usize) -> (r: &'static str)
    requires
        i < 6,
    ensures
        r@ == cloud_check_id(i as int),
{
    if i == 0 {
        "cloud-check-keywords"
    } else if i == 1 {
        "cloud-check-caption"
    } else if i == 2 {
        "cloud-check-copyright"
    } else if i == 3 {
        "cloud-check-taken"
    } else if i == 4 {
        "cloud-check-offset"
    } else {
        "cloud-check-gps"
    }
}

/// The position of `id` among the local form's fields.
pub fn library_index(id: &str) -> (r: Option<usize>)
    ensures
        match r {
            Some(i) => i < 6 && i as int == index_in(id@, |j: int| library_id(j)),
            None => index_in(id@, |j: int| library_id(j)) == -1,
        },
{
    let mut i: usize = 0;
    while i < 6
        invariant
            i <= 6,
            forall|j: int| 0 <= j < i ==> id@ != library_id(j),
        decreases 6 - i,
    {
        if str_is(id, library_field_id(i)) {
            return Some(i);
        }
        i = i + 1;
    }
    None
}

/// The position of `id` among the cloud form's fields.
pub fn cloud_field_index(id: &str) -> (r: Option<usize>)
    ensures
        match r {
            Some(i) => i < 6 && i as int == index_in(id@, |j: int| cloud_field_id(j)),
            None => index_in(id@, |j: int| cloud_field_id(j)) == -1,
        },
{
    let mut i: usize = 0;
    while i < 6
        invariant
            i <= 6,
            forall|j: int| 0 <= j < i ==> id@ != cloud_field_id(j),
        decreases 6 - i,
    {
        if str_is(id, cloud_field(i)) {
            return Some(i);
        }
        i = i + 1;
    }
    None
}

/// The position of `id` among the cloud form's check boxes.
pub fn cloud_check_index(id: &str) -> (r: Option<usize>)
    ensures
        match r {
            Some(i) => i < 6 && i as int == index_in(id@, |j: int| cloud_check_id(j)),
            None => index_in(id@, |j: int| cloud_check_id(j)) == -1,
        },
{
    let mut i: usize = 0;
    while i < 6
        invariant
            i <= 6,
            forall|j: int| 0 <= j < i ==> id@ != cloud_check_id(j),
        decreases 6 - i,
    {
        if str_is(id, cloud_check(i)) {
            return Some(i);
        }
        i = i + 1;
    }
    None
}

/// Whether a field is a photo caption, the one multi-line field.
pub open spec fn spec_is_caption(id: Seq<char>) -> bool {
    id == "metadata-caption"@ || id == "cloud-meta-caption"@
}

/// Whether a field is a photo caption.
pub fn is_caption(id: &str) -> (r: bool)
    ensures
        r == spec_is_caption(id@),
{
    str_is(id, "metadata-caption") || str_is(id, "cloud-meta-caption")
}

/// The check boxes after setting box `index` to `value`: checking the
/// capture time unchecks the offset and the other way round.
pub open spec fn spec_enable(e: Seq<bool>, index: int, value: bool) -> Seq<bool> {
    let e1 = e.update(index, value);
    if value && index == 3 {
        e1.update(4, false)
    } else if value && index == 4 {
        e1.update(3, false)
    } else {
        e1
    }
}

/// Set check box `index`, keeping the time modes exclusive.
pub fn enable_field(enabled: &mut [bool; 6], index: usize, value: bool)
    requires
        index < 6,
    ensures
        final(enabled)@ == spec_enable(old(enabled)@, index as int, value),
{
    enabled[index] = value;
    if value && index == 3 {
        enabled[4] = false;
    }
    if value && index == 4 {
        enabled[3] = false;
    }
}

/// The two time modes are never both checked once either is checked.
pub proof fn lemma_enable_keeps_time_modes_exclusive(e: Seq<bool>, index: int, value: bool)
    requires
        e.len() == 6,
        0 <= index < 6,
        !(e[3] && e[4]),
    ensures
        !(spec_enable(e, index, value)[3] && spec_enable(e, index, value)[4]),
        spec_enable(e, index, value)[index] == value,
{
}

/// Commit a typed value to a local form field: a changed value is stored
/// and checks its field; an unchanged one, or a busy form, changes nothing.
pub fn commit_value(values: &mut [String; 6], enabled: &mut [bool; 6], busy: bool, index: usize, buffer: String)
    requires
        index < 6,
    ensures
        (busy || old(values)@[index as int]@ == buffer@) ==> (final(values)@ == old(values)@ && final(enabled)@ == old(enabled)@),
        !(busy || old(values)@[index as int]@ == buffer@) ==> (final(values)@ == old(values)@.update(index as int, buffer)
            && final(enabled)@ == spec_enable(old(enabled)@, index as int, true)),
{
    if !busy && values[index] != buffer {
        values[index] = buffer;
        enable_field(enabled, index, true);
    }
}

// ---------------------------------------------------------------------
// The cloud form keeps its state as (key, label, value) fields.

/// A cloud dialog's fields by value.
pub open spec fn fields_view(f: Seq<(String, String, String)>) -> Seq<(Seq<char>, Seq<char>, Seq<char>)> {
    f.map_values(|t: (String, String, String)| (t.0@, t.1@, t.2@))
}

/// Whether check box `i` is ticked: some field with its key holds `"1"`.
pub open spec fn spec_checked(f: Seq<(Seq<char>, Seq<char>, Seq<char>)>, i: int) -> bool {
    exists|k: int| 0 <= k < f.len() && f[k].0 == cloud_check_id(i) && f[k].2 == "1"@
}

/// Every check box of the cloud form.
pub open spec fn spec_metadata_enabled(f: Seq<(Seq<char>, Seq<char>, Seq<char>)>) -> Seq<bool> {
    Seq::new(6, |i: int| spec_checked(f, i))
}

/// The fields with every check box written from `e`.
pub open spec fn spec_set_enabled(f: Seq<(Seq<char>, Seq<char>, Seq<char>)>, e: Seq<bool>) -> Seq<(Seq<char>, Seq<char>, Seq<char>)> {
    f.map_values(|t: (Seq<char>, Seq<char>, Seq<char>)| {
        let ci = index_in(t.0, |j: int| cloud_check_id(j));
        if ci >= 0 {
            (t.0, t.1, if e[ci] { "1"@ } else { ""@ })
        } else {
            t
        }
    })
}

/// The first field with key `id`, or -1.
pub open spec fn find_key(f: Seq<(Seq<char>, Seq<char>, Seq<char>)>, id: Seq<char>) -> int
    decreases f.len(),
{
    if f.len() == 0 {
        -1
    } else {
        let p = find_key(f.drop_last(), id);
        if p >= 0 {
            p
        } else if f.last().0 == id {
            f.len() - 1
        } else {
            -1
        }
    }
}

/// Whether the cloud form owns field `id`, and its fields after committing
/// `buffer` to it.
pub open spec fn spec_commit_metadata(f: Seq<(Seq<char>, Seq<char>, Seq<char>)>, id: Seq<char>, buffer: Seq<char>) -> (bool, Seq<(Seq<char>, Seq<char>, Seq<char>)>) {
    let index = index_in(id, |j: int| cloud_field_id(j));
    let p = find_key(f, id);
    if index < 0 || p < 0 {
        (false, f)
    } else if f[p].2 == buffer {
        (true, f)
    } else {
        let f1 = f.update(p, (f[p].0, f[p].1, buffer));
        (true, spec_set_enabled(f1, spec_enable(spec_metadata_enabled(f1), index, true)))
    }
}

proof fn lemma_find_key(m: Seq<(Seq<char>, Seq<char>, Seq<char>)>, id: Seq<char>, i: int)
    requires
        0 <= i <= m.len(),
        forall|j: int| 0 <= j < i ==> m[j].0 != id,
        i < m.len() ==> m[i].0 == id,
    ensures
        find_key(m, id) == (if i < m.len() { i } else { -1 }),
    decreases m.len(),
{
    if m.len() > 0 {
        let d = m.drop_last();
        if i < m.len() - 1 {
            lemma_find_key(d, id, i);
        } else {
            lemma_find_key(d, id, d.len() as int);
        }
    }
}

/// Which check boxes of the cloud form are ticked.
pub fn metadata_enabled(fields: &Vec<(String, String, String)>) -> (r: [bool; 6])
    ensures
        r@ == spec_metadata_enabled(fields_view(fields@)),
{
    let ghost f = fields_view(fields@);
    let mut r = [false; 6];
    let mut i: usize = 0;
    while i < 6
        invariant
            i <= 6,
            f == fields_view(fields@),
            r@.len() == 6,
            forall|j: int| 0 <= j < i ==> r@[j] == spec_checked(f, j),
        decreases 6 - i,
    {
        let check = cloud_check(i);
        let mut k: usize = 0;
        let mut found = false;
        while k < fields.len()
            invariant
                i < 6,
                f == fields_view(fields@),
                k <= fields@.len(),
                found == exists|m: int| 0 <= m < k && f[m].0 == cloud_check_id(i as int) && f[m].2 == "1"@,
                check@ == cloud_check_id(i as int),
            decreases fields@.len() - k,
        {
            proof {
                assert(f[k as int] == (fields@[k as int].0@, fields@[k as int].1@, fields@[k as int].2@));
            }
            if str_is(fields[k].0.as_str(), check) && str_is(fields[k].2.as_str(), "1") {
                found = true;
            }
            k = k + 1;
        }
        r[i] = found;
        i = i + 1;
    }
    assert(r@ =~= spec_metadata_enabled(f));
    r
}

/// Write every check box of the cloud form from `enabled`.
pub fn set_metadata_enabled(fields: &mut Vec<(String, String, String)>, enabled: [bool; 6])
    ensures
        fields_view(final(fields)@) == spec_set_enabled(fields_view(old(fields)@), enabled@),
{
    let ghost f0 = fields_view(fields@);
    let mut k: usize = 0;
    while k < fields.len()
        invariant
            k <= fields@.len(),
            fields@.len() == f0.len(),
            forall|m: int| 0 <= m < k ==> #[trigger] fields_view(fields@)[m] == spec_set_enabled(f0, enabled@)[m],
            forall|m: int| k <= m < fields@.len() ==> #[trigger] fields_view(fields@)[m] == f0[m],
        decreases fields@.len() - k,
    {
        let idx = cloud_check_index(fields[k].0.as_str());
        proof {
            assert(fields_view(fields@)[k as int] == f0[k as int]);
        }
        if let Some(ci) = idx {
            let ghost before = fields@;
            let (key, label, _) = fields.remove(k);
            let v = if enabled[ci] {
                String::from_str("1")
            } else {
                String::from_str("")
            };
            fields.insert(k, (key, label, v));
            proof {
                assert forall|m: int| 0 <= m < fields@.len() && m != k implies fields@[m] == before[m] by {
                    if m < k {
                    } else {
                    }
                }
                assert forall|m: int| 0 <= m < k implies #[trigger] fields_view(fields@)[m] == spec_set_enabled(f0, enabled@)[m] by {
                    assert(fields@[m] == before[m]);
                    assert(fields_view(before)[m] == spec_set_enabled(f0, enabled@)[m]);
                }
                assert forall|m: int| k < m < fields@.len() implies #[trigger] fields_view(fields@)[m] == f0[m] by {
                    assert(fields@[m] == before[m]);
                    assert(fields_view(before)[m] == f0[m]);
                }
            }
        }
        k = k + 1;
    }
    assert(fields_view(fields@) =~= spec_set_enabled(f0, enabled@));
}

/// The first field with key `id`.
pub fn key_position(fields: &Vec<(String, String, String)>, id: &str) -> (r: Option<usize>)
    ensures
        match r {
            Some(p) => p < fields@.len() && p as int == find_key(fields_view(fields@), id@),
            None => find_key(fields_view(fields@), id@) == -1,
        },
{
    let ghost f0 = fields_view(fields@);
    let mut p: usize = 0;
    while p < fields.len()
        invariant
            p <= fields@.len(),
            f0 == fields_view(fields@),
            forall|j: int| 0 <= j < p ==> f0[j].0 != id@,
        decreases fields@.len() - p,
    {
        proof {
            assert(f0[p as int].0 == fields@[p as int].0@);
        }
        if str_is(fields[p].0.as_str(), id) {
            proof {
                lemma_find_key(f0, id@, p as int);
            }
            return Some(p);
        }
        p = p + 1;
    }
    proof {
        lemma_find_key(f0, id@, p as int);
    }
    None
}

/// Commit a typed value to a cloud form field. Returns whether the field is
/// one of the form's six; a changed value is stored and checks its field,
/// an unchanged one changes nothing.
pub fn commit_metadata_field(fields: &mut Vec<(String, String, String)>, id: &str, buffer: &str) -> (r: bool)
    ensures
        ({
            let (owned, next) = spec_commit_metadata(fields_view(old(fields)@), id@, buffer@);
            r == owned && fields_view(final(fields)@) == next
        }),
        !r ==> final(fields)@ == old(fields)@,
{
    let index = match cloud_field_index(id) {
        Some(i) => i,
        None => return false,
    };
    let ghost f0 = fields_view(fields@);
    let p = match key_position(fields, id) {
        Some(p) => p,
        None => return false,
    };
    if str_is(fields[p].2.as_str(), buffer) {
        return true;
    }
    let ghost before = fields@;
    let (key, label, _) = fields.remove(p);
    fields.insert(p, (key, label, String::from_str(buffer)));
    proof {
        assert forall|m: int| 0 <= m < fields@.len() && m != p implies fields@[m] == before[m] by {
            if m < p {
            } else {
            }
        }
        assert(fields_view(fields@) =~= f0.update(p as int, (f0[p as int].0, f0[p as int].1, buffer@)));
    }
    let mut enabled = metadata_enabled(fields);
    enable_field(&mut enabled, index, true);
    set_metadata_enabled(fields, enabled);
    true
}

// ---------------------------------------------------------------------
// Keywords.

/// The keywords typed: the `;`-separated pieces, trimmed, without the
/// empty ones.
pub open spec fn keyword_pieces(parts: Seq<Seq<char>>) -> Seq<Seq<char>>
    decreases parts.len(),
{
    if parts.len() == 0 {
        Seq::empty()
    } else {
        let rest = keyword_pieces(parts.drop_last());
        let t = trim(parts.last());
        if t.len() == 0 {
            rest
        } else {
            rest.push(t)
        }
    }
}

proof fn lemma_pieces_clean(parts: Seq<Seq<char>>)
    requires
        forall|i: int, k: int| 0 <= i < parts.len() && 0 <= k < parts[i].len() ==> #[trigger] parts[i][k] != ';',
    ensures
        forall|i: int| 0 <= i < keyword_pieces(parts).len() ==> {
            let w = #[trigger] keyword_pieces(parts)[i];
            &&& w.len() > 0
            &&& !is_ws(w[0])
            &&& !is_ws(w.last())
            &&& forall|k: int| 0 <= k < w.len() ==> w[k] != ';'
        },
    decreases parts.len(),
{
    if parts.len() > 0 {
        let d = parts.drop_last();
        assert forall|i: int, k: int| 0 <= i < d.len() && 0 <= k < d[i].len() implies #[trigger] d[i][k] != ';' by {
            assert(d[i] == parts[i]);
        }
        lemma_pieces_clean(d);
        let last = parts.last();
        lemma_trim(last);
        let t = trim(last);
        let rest = keyword_pieces(d);
        assert forall|k: int| 0 <= k < t.len() implies t[k] != ';' by {
            let (i, j) = choose|i: int, j: int|
                0 <= i <= j <= last.len() && t == last.subrange(i, j) && (forall|k: int| 0 <= k < i ==> #[trigger] is_ws(last[k]))
                    && (forall|k: int| j <= k < last.len() ==> #[trigger] is_ws(last[k]));
            assert(t[k] == last[i + k]);
            assert(last == parts[parts.len() - 1]);
        }
        if t.len() > 0 {
            assert forall|i: int| 0 <= i < keyword_pieces(parts).len() implies {
                let w = #[trigger] keyword_pieces(parts)[i];
                &&& w.len() > 0
                &&& !is_ws(w[0])
                &&& !is_ws(w.last())
                &&& forall|k: int| 0 <= k < w.len() ==> w[k] != ';'
            } by {
                if i < rest.len() {
                    assert(keyword_pieces(parts)[i] == rest[i]);
                }
            }
        }
    }
}

/// Each keyword is something, starts and ends with no white space, and
/// holds no semicolon: the text is split at its semicolons and each piece
/// trimmed, the empty ones dropped.
pub proof fn lemma_keywords_clean(text: Seq<char>)
    ensures
        forall|i: int| 0 <= i < spec_keywords(text).len() ==> {
            let w = #[trigger] spec_keywords(text)[i];
            &&& w.len() > 0
            &&& !is_ws(w[0])
            &&& !is_ws(w.last())
            &&& forall|k: int| 0 <= k < w.len() ==> w[k] != ';'
        },
{
    lemma_split_on_no_sep(text, ';');
    lemma_pieces_clean(split_on(text, ';'));
}

/// The keywords of `text`, in order, repeats included.
pub open spec fn spec_keywords(text: Seq<char>) -> Seq<Seq<char>> {
    keyword_pieces(split_on(text, ';'))
}

/// `s` with later repeats dropped.
pub open spec fn first_occurrences(s: Seq<Seq<char>>) -> Seq<Seq<char>>
    decreases s.len(),
{
    if s.len() == 0 {
        Seq::empty()
    } else {
        let rest = first_occurrences(s.drop_last());
        if rest.contains(s.last()) {
            rest
        } else {
            rest.push(s.last())
        }
    }
}

/// The keywords of `text`, as the cloud form sends them.
pub fn split_keywords(text: &str) -> (r: Vec<String>)
    ensures
        r@.map_values(|s: String| s@) == spec_keywords(text@),
{
    split_trimmed(text, ';')
}

/// The pieces of `text` between the `sep`s, trimmed, without the empty
/// ones.
pub fn split_trimmed(text: &str, sep: char) -> (r: Vec<String>)
    ensures
        r@.map_values(|s: String| s@) == keyword_pieces(split_on(text@, sep)),
{
    let chars = chars_of(text);
    let parts = split_chars(chars.as_slice(), sep);
    let ghost sp = split_on(text@, sep);
    let mut r: Vec<String> = Vec::new();
    let mut i: usize = 0;
    assert(sp.take(0) =~= Seq::<Seq<char>>::empty());
    while i < parts.len()
        invariant
            i <= parts@.len(),
            parts@.len() == sp.len(),
            forall|j: int| 0 <= j < parts@.len() ==> #[trigger] parts@[j]@ == sp[j],
            r@.map_values(|s: String| s@) == keyword_pieces(sp.take(i as int)),
        decreases parts@.len() - i,
    {
        proof {
            assert(sp.take(i + 1).drop_last() =~= sp.take(i as int));
            assert(sp.take(i + 1).last() == parts@[i as int]@);
        }
        let t = trim_chars(parts[i].as_slice());
        if t.len() > 0 {
            let ghost before = r@;
            r.push(string_of(t.as_slice()));
            assert(r@.map_values(|s: String| s@) =~= before.map_values(|s: String| s@).push(t@));
        }
        i = i + 1;
    }
    assert(sp.take(sp.len() as int) =~= sp);
    r
}

/// The keywords of `text`, each once, as the local form writes them.
pub fn unique_keywords(text: &str) -> (r: Vec<String>)
    ensures
        r@.map_values(|s: String| s@) == first_occurrences(spec_keywords(text@)),
{
    let all = split_keywords(text);
    let ghost k = spec_keywords(text@);
    let mut r: Vec<String> = Vec::new();
    let mut i: usize = 0;
    assert(all@.map_values(|s: String| s@).take(0) =~= Seq::<Seq<char>>::empty());
    while i < all.len()
        invariant
            i <= all@.len(),
            all@.map_values(|s: String| s@) == k,
            r@.map_values(|s: String| s@) == first_occurrences(k.take(i as int)),
        decreases all@.len() - i,
    {
        let w = &all[i];
        let mut seen = false;
        let mut j: usize = 0;
        while j < r.len()
            invariant
                j <= r@.len(),
                seen == exists|m: int| 0 <= m < j && r@[m]@ == w@,
            decreases r@.len() - j,
        {
            if r[j] == *w {
                seen = true;
            }
            j = j + 1;
        }
        proof {
            let rv = r@.map_values(|s: String| s@);
            assert(k.take(i + 1).drop_last() =~= k.take(i as int));
            assert(k[i as int] == w@);
            if seen {
                let m = choose|m: int| 0 <= m < r@.len() && r@[m]@ == w@;
                assert(rv[m] == w@);
            } else {
                assert forall|m: int| 0 <= m < rv.len() implies rv[m] != w@ by {
                    assert(rv[m] == r@[m]@);
                }
            }
        }
        if !seen {
            let ghost before = r@;
            r.push(w.clone());
            assert(r@.map_values(|s: String| s@) =~= before.map_values(|s: String| s@).push(w@));
        }
        i = i + 1;
    }
    assert(k.take(k.len() as int) =~= k);
    r
}

/// Each keyword the local form writes appears once.
pub proof fn lemma_first_occurrences_unique(s: Seq<Seq<char>>)
    ensures
        forall|i: int, j: int| 0 <= i < j < first_occurrences(s).len() ==> first_occurrences(s)[i] != first_occurrences(s)[j],
        forall|x: Seq<char>| s.contains(x) <==> #[trigger] first_occurrences(s).contains(x),
    decreases s.len(),
{
    if s.len() > 0 {
        let d = s.drop_last();
        lemma_first_occurrences_unique(d);
        let rest = first_occurrences(d);
        let r = first_occurrences(s);
        assert forall|x: Seq<char>| s.contains(x) <==> #[trigger] r.contains(x) by {
            if s.contains(x) {
                let k = choose|k: int| 0 <= k < s.len() && s[k] == x;
                if k < s.len() - 1 {
                    assert(d[k] == x);
                    assert(d.contains(x));
                    assert(rest.contains(x));
                    if !rest.contains(s.last()) {
                        let q = choose|q: int| 0 <= q < rest.len() && rest[q] == x;
                        assert(r[q] == x);
                    }
                } else {
                    if !rest.contains(s.last()) {
                        assert(r[rest.len() as int] == x);
                    }
                }
            }
            if r.contains(x) {
                let q = choose|q: int| 0 <= q < r.len() && r[q] == x;
                if q < rest.len() {
                    assert(rest[q] == x);
                    assert(rest.contains(x));
                    assert(d.contains(x));
                    let k = choose|k: int| 0 <= k < d.len() && d[k] == x;
                    assert(s[k] == x);
                } else {
                    assert(s[s.len() - 1] == x);
                }
            }
        }
    }
}

// ---------------------------------------------------------------------
// The local form's batch change.

/// The change a local metadata form writes to each of its photos: a field
/// whose box is unticked is `None`, and left as it is. `gps` is `Some(false)`
/// to clear the position and `Some(true)` to set the coordinates typed,
/// which the caller reads.
#[derive(Debug)]
pub struct MetadataPatch {
    pub keywords: Option<Vec<String>>,
    pub caption: Option<String>,
    pub copyright: Option<String>,
    pub taken: Option<String>,
    pub offset_seconds: Option<i64>,
    pub gps: Option<bool>,
}

/// The field a local form's batch change is refused for, if any, checked
/// in order: a capture time that does not read as one (`taken_ok`); a time
/// offset ticked together with the capture time, or that is not a whole
/// number; a position that does not read as coordinates (`gps_ok`); and a
/// change that does not validate (`valid`), blamed on the position when it
/// is ticked and otherwise on the caption. Empty time and position texts
/// clear them and always read.
pub open spec fn patch_error(values: Seq<String>, enabled: Seq<bool>, taken_ok: bool, gps_ok: bool, valid: bool) -> Option<usize> {
    if enabled[3] && trim(values[3]@).len() > 0 && !taken_ok {
        Some(3usize)
    } else if enabled[4] && (enabled[3] || spec_parse_i64(trim(values[4]@)) is None) {
        Some(4usize)
    } else if enabled[5] && trim(values[5]@).len() > 0 && !gps_ok {
        Some(5usize)
    } else if !valid {
        if enabled[5] { Some(5usize) } else { Some(1usize) }
    } else {
        None
    }
}

/// The batch change of a local form whose checks all pass: each ticked
/// field's value, the keywords split at semicolons, trimmed, without empty
/// ones and each once; the capture time as `taken` normalised it, or empty
/// to clear it; the offset as a number; the position set or cleared.
pub open spec fn patch_built(values: Seq<String>, enabled: Seq<bool>, taken: Result<String, ()>, p: MetadataPatch) -> bool {
    &&& (if enabled[0] {
        p.keywords matches Some(k) && k@.map_values(|s: String| s@) == first_occurrences(spec_keywords(values[0]@))
    } else {
        p.keywords is None
    })
    &&& p.caption == if enabled[1] { Some(values[1]) } else { None }
    &&& p.copyright == if enabled[2] { Some(values[2]) } else { None }
    &&& (if enabled[3] {
        p.taken matches Some(t) && t@ == if trim(values[3]@).len() == 0 { Seq::empty() } else { taken->Ok_0@ }
    } else {
        p.taken is None
    })
    &&& p.offset_seconds == if enabled[4] { spec_parse_i64(trim(values[4]@)) } else { None }
    &&& p.gps == if enabled[5] { Some(trim(values[5]@).len() > 0) } else { None }
}

/// The batch change a local metadata form asks for, or the field to blame
/// (see `patch_error` and `patch_built`). `taken` is what normalising the
/// trimmed capture time gave, `gps_ok` whether the trimmed position read
/// as a latitude and a longitude, and `valid` whether the change
/// validates; each is read only where the form needs it.
pub fn build_patch(
    values: &[String; 6],
    enabled: &[bool; 6],
    taken: Result<String, ()>,
    gps_ok: bool,
    valid: bool,
) -> (r: Result<MetadataPatch, usize>)
    ensures
        match patch_error(values@, enabled@, taken is Ok, gps_ok, valid) {
            Some(k) => r == Err::<MetadataPatch, usize>(k),
            None => r matches Ok(p) && patch_built(values@, enabled@, taken, p),
        },
{
    let keywords = if enabled[0] {
        Some(unique_keywords(values[0].as_str()))
    } else {
        None
    };
    let caption = if enabled[1] {
        Some(values[1].clone())
    } else {
        None
    };
    let copyright = if enabled[2] {
        Some(values[2].clone())
    } else {
        None
    };
    let time = trim_str(values[3].as_str());
    let taken_text = if enabled[3] {
        if time.len() == 0 {
            Some(String::new())
        } else {
            match taken {
                Ok(t) => Some(t),
                Err(()) => return Err(3),
            }
        }
    } else {
        None
    };
    let offset_seconds = if enabled[4] {
        if enabled[3] {
            return Err(4);
        }
        let text = trim_str(values[4].as_str());
        match parse_i64(text.as_slice()) {
            Some(v) => Some(v),
            None => return Err(4),
        }
    } else {
        None
    };
    let gps = if enabled[5] {
        let place = trim_str(values[5].as_str());
        if place.len() > 0 && !gps_ok {
            return Err(5);
        }
        if !valid {
            return Err(5);
        }
        Some(place.len() > 0)
    } else {
        None
    };
    if !valid {
        return Err(1);
    }
    proof {
        reveal_strlit("");
    }
    Ok(MetadataPatch { keywords, caption, copyright, taken: taken_text, offset_seconds, gps })
}

} // verus!
