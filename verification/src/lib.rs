//! A host-side model of a game engine's boundary-crossing value layer: the
//! pre-parsed scene-tree path with its text conversions, the dynamic value
//! union with its diagnosed conversions, and the dynamic method dispatcher
//! with its structured, chainable call errors.

pub mod call;
pub mod node_path;
pub mod strings;
pub mod text;
pub mod variant;

use vstd::prelude::*;

verus! {

/// Exercises the library on a few representative values; every check is
/// proved to succeed, so the result is always true.
pub fn run() -> (ok: bool)
    ensures
        ok,
{
    let a = node_path::NodePath::from("x");
    let b = node_path::NodePath::from("x\0y");
    proof {
        reveal_strlit("x");
        reveal_strlit("x\0y");
        assert("x"@.subrange(1, 1) =~= Seq::<char>::empty());
        assert(crate::text::trunc_nul(Seq::<char>::empty()) == Seq::<char>::empty());
        assert(crate::text::trunc_nul("x"@) =~= seq!['x']);
        assert("x\0y"@.subrange(1, 3)[0] == '\0');
        assert(crate::text::trunc_nul("x\0y"@.subrange(1, 3)) =~= Seq::<char>::empty());
        assert(crate::text::trunc_nul("x\0y"@) =~= seq!['x']);
        assert(a@ == b@);
    }
    let same = a == b;
    let p = node_path::NodePath::default();
    proof {
        assert(crate::text::prefix_before(Seq::<char>::empty(), ':')
            == Seq::<char>::empty());
        assert(crate::text::split_ne(Seq::<char>::empty(), '/')
            =~= Seq::<Seq<char>>::empty());
        assert(p.names_view().len() == 0);
    }
    let missing = p.get_name(0);
    let absent = match missing {
        None => true,
        Some(_) => false,
    };
    same && absent
}

} // verus!
