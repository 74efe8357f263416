//! Content-addressed staging: deterministic temporary-file naming, so chained
//! pipeline stages never collide and a stage can always be recomputed.
//!
//! The staged location of a file is a path with the same stem and extension
//! whose directory is `temp/<hash>`, where the hash is taken over the stage
//! identifier concatenated with the file's rendered path. The name depends
//! only on those two values: staging the same pair twice always yields the
//! same path, and distinct identifiers collide only if the hash does.

use vstd::prelude::*;

use crate::chars::from_chars;
use crate::filepath::normalize_prefix;
use crate::filepath::render_model;
use crate::filepath::spec_prefix;
use crate::filepath::wf_model;
use crate::filepath::FilePath;
use crate::filepath::PathModel;
use crate::hashing::hash_chars;
use crate::hashing::spec_hash64;
use crate::num::all_dec_digits;
use crate::num::is_dec_digit;
use crate::num::lemma_u64_dec_digits;
use crate::num::spec_u64_dec;
use crate::num::u64_to_dec;

verus! {

/// The staged form of `p` under stage identifier `source`: directory
/// `temp/<hash of source ++ rendered p>`, stem and extension kept.
pub open spec fn spec_stage(source: Seq<char>, p: PathModel) -> PathModel {
    PathModel {
        dir: Some(
            "temp"@ + seq!['/'] + spec_u64_dec(spec_hash64(source + render_model(p)) as int),
        ),
        name: p.name,
        ext: p.ext,
    }
}

/// Staging is a function of the identifier and the path alone, so equal
/// arguments always stage to the same place; two identifiers stage a path to
/// the same place only when their hashes collide.
pub proof fn lemma_stage_deterministic(s1: Seq<char>, s2: Seq<char>, p: PathModel)
    ensures
        s1 == s2 ==> spec_stage(s1, p) == spec_stage(s2, p),
        spec_hash64(s1 + render_model(p)) != spec_hash64(s2 + render_model(p)) ==> spec_stage(
            s1,
            p,
        ) != spec_stage(s2, p),
{
    if spec_hash64(s1 + render_model(p)) != spec_hash64(s2 + render_model(p)) {
        let d1 = spec_u64_dec(spec_hash64(s1 + render_model(p)) as int);
        let d2 = spec_u64_dec(spec_hash64(s2 + render_model(p)) as int);
        crate::num::lemma_dec_injective(
            spec_hash64(s1 + render_model(p)) as int,
            spec_hash64(s2 + render_model(p)) as int,
        );
        let pre = "temp"@ + seq!['/'];
        if pre + d1 == pre + d2 {
            assert(d1 =~= (pre + d1).skip(pre.len() as int));
            assert(d2 =~= (pre + d2).skip(pre.len() as int));
        }
        assert(spec_stage(s1, p).dir != spec_stage(s2, p).dir);
    }
}

/// Compute the staged location of `filepath` for the stage named `source`.
pub fn tempdir(source: &str, filepath: &FilePath) -> (r: FilePath)
    ensures
        r@ == spec_stage(source@, filepath@),
        wf_model(r@),
{
    let mut key = crate::to_chars(source);
    let full = filepath.full();
    let mut fc = crate::to_chars(full.as_str());
    key.append(&mut fc);
    let h = hash_chars(&key);
    let digits = u64_to_dec(h);
    proof {
        lemma_u64_dec_digits(h as int);
    }
    let hash_dir = from_chars(&digits);

    let staged = FilePath::with_name_ext(filepath.name(), filepath.ext());
    let staged = staged.prefix(hash_dir.as_str());
    proof {
        let ds = spec_u64_dec(h as int);
        assert(is_dec_digit(ds.last()));
        assert(ds.last() != '/');
        assert(normalize_prefix(ds) == ds);
    }
    let staged = staged.prefix("temp");
    proof {
        reveal_strlit("temp");
        let t = "temp"@;
        assert(t.len() == 4 && t.last() == 'p');
        assert(normalize_prefix(t) == t);
        assert(key@ == source@ + render_model(filepath@));
        assert(staged@ =~= spec_stage(source@, filepath@));
    }
    staged
}

} // verus!
