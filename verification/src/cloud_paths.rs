//! Names the cloud side writes to disk: file and folder names made safe,
//! the folder chain below a scope, and the recovery checkpoint's file name
//! (a SHA-256 of the account's domain and the photo).
use vstd::prelude::*;
use vstd::utf8::encode_utf8;
use crate::text::{chars_of, string_of, trim_chars, trim, chars_eq, str_is};

verus! {

/// The SHA-256 digest of `data`.
pub uninterp spec fn sha256_digest(data: Seq<u8>) -> Seq<u8>;

/// `sha2::Sha256::digest`: the SHA-256 digest of `data`, which is a
/// function of `data` alone and 32 bytes long.
#[verifier::external_body]
fn sha256(data: &[u8]) -> (r: Vec<u8>)
    ensures
        r@ == sha256_digest(data@),
        r@.len() == 32,
{
    <sha2::Sha256 as sha2::Digest>::digest(data).to_vec()
}

/// A lower-case hexadecimal digit.
pub open spec fn hex_digit(n: int) -> char {
    if n < 10 {
        ('0' as int + n) as char
    } else {
        ('a' as int + n - 10) as char
    }
}

/// Bytes in lower-case hexadecimal, two digits each, as `{:x}` prints a
/// digest.
pub open spec fn hex_lower(s: Seq<u8>) -> Seq<char>
    decreases s.len(),
{
    if s.len() == 0 {
        Seq::empty()
    } else {
        hex_lower(s.drop_last()) + seq![hex_digit(s.last() as int / 16), hex_digit(s.last() as int % 16)]
    }
}

fn hex_char(n: u8) -> (c: char)
    requires
        n < 16,
    ensures
        c == hex_digit(n as int),
{
    if n < 10 {
        ((48u8 + n) as char)
    } else {
        ((97u8 + n - 10) as char)
    }
}

/// Lower-case hexadecimal of `bytes`.
pub fn to_hex_lower(bytes: &[u8]) -> (r: Vec<char>)
    ensures
        r@ == hex_lower(bytes@),
{
    let mut r: Vec<char> = Vec::new();
    let mut i: usize = 0;
    assert(bytes@.take(0) =~= Seq::<u8>::empty());
    while i < bytes.len()
        invariant
            i <= bytes@.len(),
            r@ == hex_lower(bytes@.take(i as int)),
        decreases bytes@.len() - i,
    {
        let b = bytes[i];
        proof {
            assert(bytes@.take(i + 1).drop_last() =~= bytes@.take(i as int));
        }
        r.push(hex_char(b / 16));
        r.push(hex_char(b % 16));
        assert(r@ =~= hex_lower(bytes@.take(i + 1)));
        i = i + 1;
    }
    assert(bytes@.take(bytes@.len() as int) =~= bytes@);
    r
}

/// The value of a lower-case hexadecimal digit.
pub open spec fn hex_value(c: char) -> int {
    if '0' <= c && c <= '9' {
        c as int - '0' as int
    } else {
        c as int - 'a' as int + 10
    }
}

/// Lower-case hexadecimal writes each byte as two characters, each a digit
/// or a letter from `a` to `f`, which read back as the byte: sixteen
/// times the first, plus the second.
pub proof fn lemma_hex_reads_back(s: Seq<u8>)
    ensures
        hex_lower(s).len() == 2 * s.len(),
        forall|i: int| 0 <= i < hex_lower(s).len() ==> {
            let c = #[trigger] hex_lower(s)[i];
            ('0' <= c && c <= '9') || ('a' <= c && c <= 'f')
        },
        forall|i: int| 0 <= i < s.len() ==> hex_value(#[trigger] hex_lower(s)[2 * i]) * 16 + hex_value(hex_lower(s)[2 * i + 1])
            == s[i] as int,
    decreases s.len(),
{
    if s.len() > 0 {
        let d = s.drop_last();
        lemma_hex_reads_back(d);
        let b = s.last() as int;
        let h = hex_lower(s);
        let hd = hex_lower(d);
        assert(h == hd + seq![hex_digit(b / 16), hex_digit(b % 16)]);
        assert forall|i: int| 0 <= i < h.len() implies {
            let c = #[trigger] h[i];
            ('0' <= c && c <= '9') || ('a' <= c && c <= 'f')
        } by {
            if i < hd.len() {
                assert(h[i] == hd[i]);
            }
        }
        assert forall|i: int| 0 <= i < s.len() implies hex_value(#[trigger] h[2 * i]) * 16 + hex_value(h[2 * i + 1])
            == s[i] as int by {
            if i < d.len() {
                assert(h[2 * i] == hd[2 * i]);
                assert(h[2 * i + 1] == hd[2 * i + 1]);
                assert(s[i] == d[i]);
            } else {
                assert(h[2 * i] == hex_digit(b / 16));
                assert(h[2 * i + 1] == hex_digit(b % 16));
                assert(b == 16 * (b / 16) + b % 16);
            }
        }
    }
}

/// The SHA-256 of an account's domain, a newline and `tail`, in
/// lower-case hexadecimal: the key the cloud side files per-account
/// state under.
pub open spec fn spec_account_key(domain: Seq<char>, tail: Seq<char>) -> Seq<char> {
    hex_lower(sha256_digest(encode_utf8(domain + "\n"@ + tail)))
}

/// The key for `tail` under the account at `domain`.
pub fn account_key(domain: &str, tail: &str) -> (r: String)
    ensures
        r@ == spec_account_key(domain@, tail@),
{
    let mut text = String::from_str(domain);
    text.append("\n");
    text.append(tail);
    let bytes = text.as_str().as_bytes();
    let digest = sha256(bytes);
    let hex = to_hex_lower(digest.as_slice());
    string_of(hex.as_slice())
}

/// The recovery checkpoint's file name for a photo of an account.
pub open spec fn spec_recovery_file_name(domain: Seq<char>, asset: Seq<char>) -> Seq<char> {
    spec_account_key(domain, asset) + ".msgpack"@
}

/// The file name under the state folder where a cloud document's unsaved
/// edits are checkpointed: the SHA-256 of the account's domain, a newline
/// and the photo's id, in hexadecimal.
pub fn recovery_file_name(domain: &str, asset: &str) -> (r: String)
    ensures
        r@ == spec_recovery_file_name(domain@, asset@),
{
    let mut name = account_key(domain, asset);
    name.append(".msgpack");
    name
}

// ---------------------------------------------------------------------
// Safe names.

pub open spec fn is_separator(c: char) -> bool {
    c == '/' || c == '\\' || c == '\0'
}

/// `name` with every path separator and NUL made an underscore.
pub open spec fn cleaned(name: Seq<char>) -> Seq<char> {
    name.map_values(|c: char| if is_separator(c) { '_' } else { c })
}

/// A file or folder name the local disk will take for a cloud name.
pub open spec fn spec_safe_component(name: Seq<char>) -> Seq<char> {
    let t = trim(cleaned(name));
    if t == ""@ || t == "."@ || t == ".."@ {
        "untitled"@
    } else {
        t
    }
}

/// A cloud name made into a single path component: separators become
/// underscores, the ends are trimmed, and an empty, `.` or `..` name
/// becomes `untitled`.
pub fn safe_component(name: &str) -> (r: String)
    ensures
        r@ == spec_safe_component(name@),
{
    let chars = chars_of(name);
    let mut c: Vec<char> = Vec::new();
    let mut i: usize = 0;
    while i < chars.len()
        invariant
            i <= chars@.len(),
            chars@ == name@,
            c@ == cleaned(name@).take(i as int),
        decreases chars@.len() - i,
    {
        let ch = chars[i];
        if ch == '/' || ch == '\\' || ch == '\0' {
            c.push('_');
        } else {
            c.push(ch);
        }
        i = i + 1;
        assert(c@ =~= cleaned(name@).take(i as int));
    }
    assert(c@ =~= cleaned(name@));
    let t = trim_chars(c.as_slice());
    let empty = chars_of("");
    let dot = chars_of(".");
    let dots = chars_of("..");
    if chars_eq(t.as_slice(), empty.as_slice()) || chars_eq(t.as_slice(), dot.as_slice())
        || chars_eq(t.as_slice(), dots.as_slice()) {
        String::from_str("untitled")
    } else {
        string_of(t.as_slice())
    }
}

proof fn lemma_trim_subrange(s: Seq<char>)
    ensures
        forall|i: int| 0 <= i < trim(s).len() ==> exists|j: int| 0 <= j < s.len() && #[trigger] trim(s)[i] == s[j],
{
    lemma_trim_start_sub(s);
    lemma_trim_end_sub(crate::text::trim_start(s));
    assert forall|i: int| 0 <= i < trim(s).len() implies exists|j: int| 0 <= j < s.len() && #[trigger] trim(s)[i] == s[j] by {
        let ts = crate::text::trim_start(s);
        let j1 = choose|j: int| 0 <= j < ts.len() && trim(s)[i] == ts[j];
        let j2 = choose|j: int| 0 <= j < s.len() && ts[j1] == s[j];
    }
}

proof fn lemma_trim_start_sub(s: Seq<char>)
    ensures
        forall|i: int| 0 <= i < crate::text::trim_start(s).len() ==> exists|j: int| 0 <= j < s.len() && #[trigger] crate::text::trim_start(s)[i] == s[j],
    decreases s.len(),
{
    if s.len() > 0 && crate::text::is_ws(s[0]) {
        let d = s.drop_first();
        lemma_trim_start_sub(d);
        assert forall|i: int| 0 <= i < crate::text::trim_start(s).len() implies exists|j: int| 0 <= j < s.len() && #[trigger] crate::text::trim_start(s)[i] == s[j] by {
            let j = choose|j: int| 0 <= j < d.len() && crate::text::trim_start(d)[i] == d[j];
            assert(d[j] == s[j + 1]);
        }
    } else {
        assert forall|i: int| 0 <= i < crate::text::trim_start(s).len() implies exists|j: int| 0 <= j < s.len() && #[trigger] crate::text::trim_start(s)[i] == s[j] by {
            assert(crate::text::trim_start(s)[i] == s[i]);
        }
    }
}

proof fn lemma_trim_end_sub(s: Seq<char>)
    ensures
        forall|i: int| 0 <= i < crate::text::trim_end(s).len() ==> exists|j: int| 0 <= j < s.len() && #[trigger] crate::text::trim_end(s)[i] == s[j],
    decreases s.len(),
{
    if s.len() > 0 && crate::text::is_ws(s.last()) {
        let d = s.drop_last();
        lemma_trim_end_sub(d);
        assert forall|i: int| 0 <= i < crate::text::trim_end(s).len() implies exists|j: int| 0 <= j < s.len() && #[trigger] crate::text::trim_end(s)[i] == s[j] by {
            let j = choose|j: int| 0 <= j < d.len() && crate::text::trim_end(d)[i] == d[j];
            assert(d[j] == s[j]);
        }
    } else {
        assert forall|i: int| 0 <= i < crate::text::trim_end(s).len() implies exists|j: int| 0 <= j < s.len() && #[trigger] crate::text::trim_end(s)[i] == s[j] by {
            assert(crate::text::trim_end(s)[i] == s[i]);
        }
    }
}

/// A safe component is never empty, `.` or `..`, and holds no path
/// separator or NUL.
pub proof fn lemma_safe_component(name: Seq<char>)
    ensures
        ({
            let r = spec_safe_component(name);
            &&& r.len() > 0
            &&& r != "."@
            &&& r != ".."@
            &&& forall|i: int| 0 <= i < r.len() ==> !is_separator(#[trigger] r[i])
        }),
{
    reveal_strlit("untitled");
    reveal_strlit(".");
    reveal_strlit("..");
    reveal_strlit("");
    let c = cleaned(name);
    let t = trim(c);
    lemma_trim_subrange(c);
    assert forall|i: int| 0 <= i < t.len() implies !is_separator(#[trigger] t[i]) by {
        let j = choose|j: int| 0 <= j < c.len() && t[i] == c[j];
    }
    assert("untitled"@ =~= seq!['u', 'n', 't', 'i', 't', 'l', 'e', 'd']);
    assert(""@.len() == 0);
    if t.len() == 0 {
        assert(t =~= ""@);
    }
}

// ---------------------------------------------------------------------
// Folder chains.

/// A cloud folder: its id, name and parent.
#[derive(Debug)]
pub struct Folder {
    pub id: String,
    pub name: String,
    pub parent_id: Option<String>,
}

/// The position of the first folder with id `id`, or -1.
pub open spec fn find_folder(f: Seq<Folder>, id: Seq<char>) -> int
    decreases f.len(),
{
    if f.len() == 0 {
        -1
    } else {
        let p = find_folder(f.drop_last(), id);
        if p >= 0 {
            p
        } else if f.last().id@ == id {
            f.len() - 1
        } else {
            -1
        }
    }
}

/// Folder names from `at` upwards, stopping at `root`, at a folder not on
/// the catalogue page, at the library, or after `fuel` steps.
pub open spec fn walk_up(f: Seq<Folder>, root: Option<Seq<char>>, at: Option<Seq<char>>, fuel: nat) -> Seq<Seq<char>>
    decreases fuel,
{
    if fuel == 0 {
        Seq::empty()
    } else {
        match at {
            None => Seq::empty(),
            Some(id) => if root == Some(id) {
                Seq::empty()
            } else {
                let p = find_folder(f, id);
                if p < 0 {
                    Seq::empty()
                } else {
                    seq![f[p].name@] + walk_up(f, root, match f[p].parent_id {
                        Some(q) => Some(q@),
                        None => None,
                    }, (fuel - 1) as nat)
                }
            },
        }
    }
}

/// The folder names from `root` (exclusive) down to `folder`, at most 32.
pub open spec fn spec_folder_path_below(f: Seq<Folder>, root: Option<Seq<char>>, folder: Option<Seq<char>>) -> Seq<Seq<char>> {
    walk_up(f, root, folder, 32).reverse()
}

proof fn lemma_find_folder(m: Seq<Folder>, id: Seq<char>, i: int)
    requires
        0 <= i <= m.len(),
        forall|j: int| 0 <= j < i ==> m[j].id@ != id,
        i < m.len() ==> m[i].id@ == id,
    ensures
        find_folder(m, id) == (if i < m.len() { i } else { -1 }),
    decreases m.len(),
{
    if m.len() > 0 {
        let d = m.drop_last();
        if i < m.len() - 1 {
            lemma_find_folder(d, id, i);
        } else {
            lemma_find_folder(d, id, d.len() as int);
        }
    }
}

pub fn folder_position(folders: &[Folder], id: &String) -> (r: Option<usize>)
    ensures
        match r {
            Some(p) => p < folders@.len() && p as int == find_folder(folders@, id@),
            None => find_folder(folders@, id@) == -1,
        },
{
    let mut i: usize = 0;
    while i < folders.len()
        invariant
            i <= folders@.len(),
            forall|j: int| 0 <= j < i ==> folders@[j].id@ != id@,
        decreases folders@.len() - i,
    {
        if folders[i].id == *id {
            proof {
                lemma_find_folder(folders@, id@, i as int);
            }
            return Some(i);
        }
        i = i + 1;
    }
    proof {
        lemma_find_folder(folders@, id@, i as int);
    }
    None
}

pub open spec fn opt_str_view(o: Option<&str>) -> Option<Seq<char>> {
    match o {
        Some(s) => Some(s@),
        None => None,
    }
}

pub open spec fn opt_string_view(o: Option<String>) -> Option<Seq<char>> {
    match o {
        Some(s) => Some(s@),
        None => None,
    }
}

/// The names of the folders from `root` (exclusive; `None` is the library)
/// down to `folder`, for recreating the cloud's tree on disk. A folder off
/// the catalogue page, or a cycle, stops the walk.
pub fn folder_path_below(folders: &[Folder], root: Option<&str>, folder: Option<&str>) -> (r: Vec<String>)
    ensures
        r@.map_values(|s: String| s@) == spec_folder_path_below(folders@, opt_str_view(root), opt_str_view(folder)),
{
    let ghost rootv = opt_str_view(root);
    let mut names: Vec<String> = Vec::new();
    let mut at: Option<String> = match folder {
        Some(f) => Some(String::from_str(f)),
        None => None,
    };
    let mut steps: usize = 0;
    let ghost total = walk_up(folders@, rootv, opt_str_view(folder), 32);
    while steps < 32
        invariant
            steps <= 32,
            names@.map_values(|s: String| s@) + walk_up(folders@, rootv, opt_string_view(at), (32 - steps) as nat) == total,
            rootv == opt_str_view(root),
        ensures
            names@.map_values(|s: String| s@) == total,
        decreases 32 - steps,
    {
        let ghost names_view = names@.map_values(|s: String| s@);
        let id = match at {
            Some(id) => id,
            None => {
                assert(names_view + Seq::<Seq<char>>::empty() =~= names_view);
                break;
            },
        };
        let is_root = match root {
            Some(r) => str_is(id.as_str(), r),
            None => false,
        };
        if is_root {
            assert(names_view + Seq::<Seq<char>>::empty() =~= names_view);
            break;
        }
        let p = match folder_position(folders, &id) {
            Some(p) => p,
            None => {
                assert(names_view + Seq::<Seq<char>>::empty() =~= names_view);
                break;
            },
        };
        let ghost before = names@;
        names.push(folders[p].name.clone());
        proof {
            assert(names@.map_values(|s: String| s@) =~= before.map_values(|s: String| s@).push(folders@[p as int].name@));
        }
        at = match &folders[p].parent_id {
            Some(q) => Some(q.clone()),
            None => None,
        };
        steps = steps + 1;
        proof {
            assert(names@.map_values(|s: String| s@) + walk_up(folders@, rootv, opt_string_view(at), (32 - steps) as nat) =~= total);
        }
    }
    let mut r: Vec<String> = Vec::new();
    let mut k: usize = names.len();
    while k > 0
        invariant
            k <= names@.len(),
            names@.map_values(|s: String| s@) == total,
            r@.map_values(|s: String| s@) == total.reverse().take(names@.len() - k),
        decreases k,
    {
        k = k - 1;
        let ghost before = r@;
        r.push(names[k].clone());
        proof {
            assert(r@.map_values(|s: String| s@) =~= before.map_values(|s: String| s@).push(names@[k as int]@));
            assert(total.reverse().take(names@.len() - k) =~= total.reverse().take(names@.len() - k - 1).push(total[k as int]));
        }
    }
    assert(total.reverse().take(total.len() as int) =~= total.reverse());
    r
}

proof fn lemma_walk_up_len(f: Seq<Folder>, root: Option<Seq<char>>, at: Option<Seq<char>>, fuel: nat)
    ensures
        walk_up(f, root, at, fuel).len() <= fuel,
    decreases fuel,
{
    if fuel > 0 {
        if let Some(id) = at {
            let p = find_folder(f, id);
            if root != Some(id) && p >= 0 {
                lemma_walk_up_len(f, root, match f[p].parent_id {
                    Some(q) => Some(q@),
                    None => None,
                }, (fuel - 1) as nat);
            }
        }
    }
}

/// However the folders link up, cycles included, the chain holds at most
/// 32 names.
pub proof fn lemma_folder_path_bounded(f: Seq<Folder>, root: Option<Seq<char>>, folder: Option<Seq<char>>)
    ensures
        spec_folder_path_below(f, root, folder).len() <= 32,
{
    lemma_walk_up_len(f, root, folder, 32);
}

} // verus!
