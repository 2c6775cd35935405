//! The vault: a directory of Markdown sources with a `.tidy` metadata folder.
use vstd::prelude::*;
use crate::error::VaultError;
use crate::text::{chars_of, concat_vec, ends_with, string_of};

verus! {

/// `base` joined with a relative component, as `Path::join` does on Unix.
pub open spec fn path_join(base: Seq<char>, part: Seq<char>) -> Seq<char> {
    if base.len() == 0 {
        part
    } else if ends_with(base, "/"@) {
        base + part
    } else {
        base + "/"@ + part
    }
}

pub fn join_path(base: &str, part: &str) -> (r: String)
    ensures
        r@ == path_join(base@, part@),
{
    let b = chars_of(base);
    let p = chars_of(part);
    proof {
        reveal_strlit("/");
        assert("/"@ =~= seq!['/']);
    }
    if b.len() == 0 {
        string_of(p.as_slice())
    } else if b[b.len() - 1] == '/' {
        assert(b@.skip(b@.len() - 1) =~= seq![b@.last()]);
        string_of(concat_vec(b.as_slice(), p.as_slice()).as_slice())
    } else {
        assert(b@.skip(b@.len() - 1) =~= seq![b@.last()]);
        assert(b@.skip(b@.len() - 1)[0] != '/');
        let slash = chars_of("/");
        let bs = concat_vec(b.as_slice(), slash.as_slice());
        string_of(concat_vec(bs.as_slice(), p.as_slice()).as_slice())
    }
}

#[derive(Debug)]
pub struct VaultSummary {
    pub path: String,
    pub database_path: String,
    pub created: bool,
}

#[derive(Debug)]
pub struct Vault {
    root: String,
}

impl Vault {
    pub closed spec fn spec_root(&self) -> Seq<char> {
        self.root@
    }

    /// Open an existing vault; `is_dir` tells whether the path is a directory.
    pub fn open(root: String, is_dir: bool) -> (r: Result<Vault, VaultError>)
        ensures
            is_dir ==> (r matches Ok(v) && v.spec_root() == root@),
            !is_dir ==> (r matches Err(VaultError::NotDirectory(p)) && p@ == root@),
    {
        if !is_dir {
            return Err(VaultError::NotDirectory(root));
        }
        Vault { root }.into_ok()
    }

    fn into_ok(self) -> (r: Result<Vault, VaultError>)
        ensures
            r matches Ok(v) && v.spec_root() == self.spec_root(),
    {
        Ok(self)
    }

    pub fn root(&self) -> (r: &str)
        ensures
            r@ == self.spec_root(),
    {
        self.root.as_str()
    }

    /// `<root>/.tidy/index.db`.
    pub fn database_path(&self) -> (r: String)
        ensures
            r@ == path_join(path_join(self.spec_root(), ".tidy"@), "index.db"@),
    {
        let meta = join_path(self.root.as_str(), ".tidy");
        join_path(meta.as_str(), "index.db")
    }
}

} // verus!
