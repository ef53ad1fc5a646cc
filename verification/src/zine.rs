use vstd::prelude::*;

verus! {

/// The build engine: where the source tree is read from and where the
/// rendered site goes.
#[derive(Debug)]
pub struct ZineEngine {
    pub source: String,
    pub dest: String,
}

impl ZineEngine {
    /// An engine over the given source and destination directories.
    pub fn new(source: String, dest: String) -> (r: ZineEngine)
        ensures
            r.source == source,
            r.dest == dest,
    {
        ZineEngine { source, dest }
    }
}

/// The positions, from `i` on, whose flag is set, in order.
pub open spec fn true_indices_from(s: Seq<bool>, i: int) -> Seq<usize>
    decreases s.len() - i,
{
    if i < 0 || i >= s.len() {
        Seq::empty()
    } else if s[i] {
        seq![i as usize] + true_indices_from(s, i + 1)
    } else {
        true_indices_from(s, i + 1)
    }
}

/// The positions whose flag is set, in order: the template engine's
/// `featured` helper keeps exactly the articles at these positions.
pub open spec fn true_indices(s: Seq<bool>) -> Seq<usize> {
    true_indices_from(s, 0)
}

fn featured_indices_from(flags: &Vec<bool>, i: usize) -> (r: Vec<usize>)
    requires
        i <= flags.len(),
    ensures
        r@ == true_indices_from(flags@, i as int),
    decreases flags.len() - i,
{
    if i == flags.len() {
        let r: Vec<usize> = Vec::new();
        proof {
            assert(r@ =~= true_indices_from(flags@, i as int));
        }
        r
    } else {
        let mut rest = featured_indices_from(flags, i + 1);
        if flags[i] {
            rest.insert(0, i);
            proof {
                assert(rest@ =~= true_indices_from(flags@, i as int));
            }
        }
        rest
    }
}

/// The positions of the set flags, in order. The driver of the template
/// engine's `featured` helper keeps exactly the entries at these positions.
pub fn featured_indices(flags: &Vec<bool>) -> (r: Vec<usize>)
    ensures
        r@ == true_indices(flags@),
{
    featured_indices_from(flags, 0)
}

} // verus!
