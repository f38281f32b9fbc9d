//! Variable layout of the direct min-fuel program: each maneuver owns one
//! contiguous block of solver variables, laid out in candidate-time order.
//! An L2-charged maneuver owns its fuel epigraph variable and its three
//! delta-v components; a polytope-charged maneuver owns one nonnegative weight
//! per direction.

use crate::types::M;
use vstd::prelude::*;

verus! {

/// How a maneuver's delta-v is built from solver variables: a free vector
/// charged its L2 norm, or a nonnegative combination of this many fixed
/// directions charged the sum of the weights.
#[derive(Debug, Clone, Copy, PartialEq, Eq, Structural)]
pub enum GeneratorShape {
    Norm,
    Polytope(usize),
}

/// Number of solver variables a maneuver of this shape owns.
pub open spec fn block_size(s: GeneratorShape) -> nat {
    match s {
        GeneratorShape::Norm => (M + 1) as nat,
        GeneratorShape::Polytope(p) => p as nat,
    }
}

/// First variable of block `j`: the sizes of the blocks before it, summed.
pub open spec fn block_offset(shapes: Seq<GeneratorShape>, j: int) -> nat
    decreases j,
{
    if j <= 0 {
        0
    } else {
        block_offset(shapes, j - 1) + block_size(shapes[j - 1])
    }
}

/// Offsets only grow along the blocks.
pub proof fn lemma_block_offset_monotone(shapes: Seq<GeneratorShape>, j: int, k: int)
    requires
        0 <= j <= k,
    ensures
        block_offset(shapes, j) <= block_offset(shapes, k),
    decreases k - j,
{
    if j < k {
        lemma_block_offset_monotone(shapes, j, k - 1);
    }
}

/// The blocks tile the variable range without overlap: every block ends at
/// or before the start of every later block, and the last block ends at the
/// total.
pub proof fn lemma_blocks_disjoint(shapes: Seq<GeneratorShape>, j: int, k: int)
    requires
        0 <= j < k,
    ensures
        block_offset(shapes, j) + block_size(shapes[j]) <= block_offset(shapes, k),
{
    lemma_block_offset_monotone(shapes, j + 1, k);
}

/// An L2-charged block owns exactly four variables (the epigraph variable and
/// three delta-v components); a polytope block owns exactly one weight per
/// direction.
pub proof fn lemma_block_sizes(p: usize)
    ensures
        block_size(GeneratorShape::Norm) == 4,
        block_size(GeneratorShape::Polytope(p)) == p,
{
}

/// The blocks are contiguous: the first starts at variable zero, and each
/// later block starts exactly where the one before it ends, with no gap.
pub proof fn lemma_blocks_contiguous(shapes: Seq<GeneratorShape>, j: int)
    requires
        0 <= j < shapes.len(),
    ensures
        block_offset(shapes, 0) == 0,
        block_offset(shapes, j + 1) == block_offset(shapes, j) + block_size(shapes[j]),
{
}

/// The first variable of each maneuver's block, and the total number of
/// variables.
pub fn variable_layout(shapes: &[GeneratorShape]) -> (r: (Vec<usize>, usize))
    requires
        block_offset(shapes@, shapes@.len() as int) <= usize::MAX,
    ensures
        r.0@.len() == shapes@.len(),
        forall|j: int| 0 <= j < shapes@.len() ==> #[trigger] r.0@[j] as nat == block_offset(shapes@, j),
        r.1 as nat == block_offset(shapes@, shapes@.len() as int),
        shapes@.len() > 0 ==> r.0@[0] == 0,
        forall|j: int|
            0 <= j < shapes@.len() - 1 ==> r.0@[j + 1] as nat == r.0@[j] as nat + block_size(
                #[trigger] shapes@[j],
            ),
        shapes@.len() == 0 ==> r.1 == 0,
        shapes@.len() > 0 ==> r.1 as nat == r.0@[shapes@.len() - 1] as nat + block_size(
            shapes@[shapes@.len() - 1],
        ),
{
    let mut offsets: Vec<usize> = Vec::new();
    let mut total: usize = 0;
    let mut j: usize = 0;
    while j < shapes.len()
        invariant
            j <= shapes@.len(),
            block_offset(shapes@, shapes@.len() as int) <= usize::MAX,
            offsets@.len() == j,
            forall|i: int| 0 <= i < j ==> #[trigger] offsets@[i] as nat == block_offset(shapes@, i),
            total as nat == block_offset(shapes@, j as int),
        decreases shapes@.len() - j,
    {
        proof {
            lemma_block_offset_monotone(shapes@, j as int + 1, shapes@.len() as int);
        }
        offsets.push(total);
        let size: usize = match shapes[j] {
            GeneratorShape::Norm => M + 1,
            GeneratorShape::Polytope(p) => p,
        };
        total = total + size;
        j = j + 1;
    }
    (offsets, total)
}

} // verus!
