//! Where a camera import sends its photos in the cloud, captured when the
//! import opens, so that browsing elsewhere or signing into another
//! account meanwhile cannot redirect the upload.
use vstd::prelude::*;
use crate::cloud_paths::{Folder, find_folder, folder_position};
use crate::text::{chars_of, string_of};
use crate::session::{spec_upload_destination, upload_destination};
use crate::workspace::Workspace;

verus! {

/// Which part of the cloud library a view or an upload is about.
#[derive(Debug)]
pub enum Scope {
    Library,
    Folder { id: String },
    Bucket { id: String },
}

/// A saved selection of photos in the cloud.
#[derive(Debug)]
pub struct Bucket {
    pub id: String,
    pub name: String,
}

/// The position of the first bucket with id `id`, or -1.
pub open spec fn find_bucket(b: Seq<Bucket>, id: Seq<char>) -> int
    decreases b.len(),
{
    if b.len() == 0 {
        -1
    } else {
        let p = find_bucket(b.drop_last(), id);
        if p >= 0 {
            p
        } else if b.last().id@ == id {
            b.len() - 1
        } else {
            -1
        }
    }
}

proof fn lemma_find_bucket(b: Seq<Bucket>, id: Seq<char>, i: int)
    requires
        0 <= i <= b.len(),
        forall|j: int| 0 <= j < i ==> b[j].id@ != id,
        i < b.len() ==> b[i].id@ == id,
    ensures
        find_bucket(b, id) == (if i < b.len() { i } else { -1 }),
    decreases b.len(),
{
    if b.len() > 0 {
        let d = b.drop_last();
        if i < b.len() - 1 {
            lemma_find_bucket(d, id, i);
        } else {
            lemma_find_bucket(d, id, d.len() as int);
        }
    }
}

fn bucket_position(buckets: &[Bucket], id: &String) -> (r: Option<usize>)
    ensures
        match r {
            Some(p) => p < buckets@.len() && p as int == find_bucket(buckets@, id@),
            None => find_bucket(buckets@, id@) == -1,
        },
{
    let mut i: usize = 0;
    while i < buckets.len()
        invariant
            i <= buckets@.len(),
            forall|j: int| 0 <= j < i ==> buckets@[j].id@ != id@,
        decreases buckets@.len() - i,
    {
        if buckets[i].id == *id {
            proof {
                lemma_find_bucket(buckets@, id@, i as int);
            }
            return Some(i);
        }
        i = i + 1;
    }
    proof {
        lemma_find_bucket(buckets@, id@, buckets@.len() as int);
    }
    None
}

/// The upload of a camera import: the sign-in it was made under, and
/// where the photos go.
#[derive(Debug)]
pub struct CloudImportTarget {
    pub epoch: u64,
    pub scope: Scope,
}

pub open spec fn upload_cancelled() -> Seq<char> {
    "cloud.upload.cancelled"@
}

pub open spec fn sign_in_first() -> Seq<char> {
    "cloud.error.sign_in_first"@
}

/// The name of the folder or bucket `scope` names, among those listed.
pub open spec fn scope_name(scope: Scope, folders: Seq<Folder>, buckets: Seq<Bucket>) -> Option<Seq<char>> {
    match scope {
        Scope::Folder { id } => {
            let p = find_folder(folders, id@);
            if p >= 0 { Some(folders[p].name@) } else { None }
        },
        Scope::Bucket { id } => {
            let p = find_bucket(buckets, id@);
            if p >= 0 { Some(buckets[p].name@) } else { None }
        },
        Scope::Library => None,
    }
}

impl CloudImportTarget {
    /// Whether the upload may still start: under the same sign-in, and
    /// connected. The error is the key of its message.
    pub fn check(&self, ws: &Workspace) -> (r: Result<(), String>)
        ensures
            match r {
                Ok(_) => self.epoch == ws.cloud_epoch && ws.cloud_client,
                Err(e) => if self.epoch != ws.cloud_epoch {
                    e@ == upload_cancelled()
                } else {
                    !ws.cloud_client && e@ == sign_in_first()
                },
            },
    {
        if self.epoch != ws.cloud_epoch {
            return Err("cloud.upload.cancelled".to_owned());
        }
        if !ws.cloud_client {
            return Err("cloud.error.sign_in_first".to_owned());
        }
        Ok(())
    }

    /// Where the upload goes, once `check` lets it start: into the bucket
    /// or the folder of its scope, as (bucket, folder); neither for the
    /// whole library. Refused as `check` refuses it.
    pub fn destination(&self, ws: &Workspace) -> (r: Result<(Option<String>, Option<String>), String>)
        ensures
            match r {
                Ok(d) => self.epoch == ws.cloud_epoch && ws.cloud_client && d == spec_upload_destination(self.scope),
                Err(e) => if self.epoch != ws.cloud_epoch {
                    e@ == upload_cancelled()
                } else {
                    !ws.cloud_client && e@ == sign_in_first()
                },
            },
    {
        match self.check(ws) {
            Err(e) => Err(e),
            Ok(()) => Ok(upload_destination(&self.scope)),
        }
    }

    /// What the import offers to do: `prompt`, and where to when that is a
    /// folder or bucket listed, as "prompt / name".
    pub fn label(&self, prompt: &str, folders: &[Folder], buckets: &[Bucket]) -> (r: String)
        ensures
            r@ == match scope_name(self.scope, folders@, buckets@) {
                Some(name) => prompt@ + " / "@ + name,
                None => prompt@,
            },
    {
        let name: Option<&String> = match &self.scope {
            Scope::Folder { id } => match folder_position(folders, id) {
                Some(p) => Some(&folders[p].name),
                None => None,
            },
            Scope::Bucket { id } => match bucket_position(buckets, id) {
                Some(p) => Some(&buckets[p].name),
                None => None,
            },
            Scope::Library => None,
        };
        match name {
            Some(n) => {
                let mut out = chars_of(prompt);
                let sep = chars_of(" / ");
                let nm = chars_of(n.as_str());
                let ghost p0 = out@;
                let mut i: usize = 0;
                while i < sep.len()
                    invariant
                        i <= sep@.len(),
                        out@ == p0 + sep@.take(i as int),
                    decreases sep@.len() - i,
                {
                    out.push(sep[i]);
                    i = i + 1;
                    assert(out@ =~= p0 + sep@.take(i as int));
                }
                assert(sep@.take(sep@.len() as int) =~= sep@);
                let ghost p1 = out@;
                let mut j: usize = 0;
                while j < nm.len()
                    invariant
                        j <= nm@.len(),
                        out@ == p1 + nm@.take(j as int),
                    decreases nm@.len() - j,
                {
                    out.push(nm[j]);
                    j = j + 1;
                    assert(out@ =~= p1 + nm@.take(j as int));
                }
                assert(nm@.take(nm@.len() as int) =~= nm@);
                string_of(out.as_slice())
            },
            None => prompt.to_owned(),
        }
    }
}

} // verus!
