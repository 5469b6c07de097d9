//! The metadata device as an in-memory sequence of fixed-size blocks.

use vstd::prelude::*;
use crate::bytes::BLOCK_SIZE;

verus! {

/// A read-only copy of the metadata device, split into `BLOCK_SIZE`-byte
/// blocks.  All engine structures are views over these blocks.
pub struct Image {
    pub blocks: Vec<Vec<u8>>,
}

impl View for Image {
    type V = Seq<Seq<u8>>;

    open spec fn view(&self) -> Seq<Seq<u8>> {
        Seq::new(self.blocks@.len(), |i: int| self.blocks@[i]@)
    }
}

impl Image {
    /// Every block holds exactly `BLOCK_SIZE` bytes.
    pub open spec fn wf(&self) -> bool {
        forall|i: int| 0 <= i < self@.len() ==> (#[trigger] self@[i]).len() == BLOCK_SIZE
    }

    /// Splits a raw device copy into blocks.  Fails when the data is
    /// empty or not a whole number of blocks.
    pub fn from_bytes(data: &Vec<u8>) -> (r: Option<Image>)
        ensures
            match r {
                Some(img) => {
                    &&& img.wf()
                    &&& data@.len() == img@.len() * BLOCK_SIZE
                    &&& img@.len() > 0
                    &&& forall|i: int|
                        0 <= i < img@.len() ==> #[trigger] img@[i] == data@.subrange(
                            i * BLOCK_SIZE,
                            i * BLOCK_SIZE + BLOCK_SIZE,
                        )
                },
                None => data@.len() == 0 || data@.len() % (BLOCK_SIZE as nat) != 0,
            },
    {
        let n = data.len();
        if n == 0 || n % BLOCK_SIZE != 0 {
            return None;
        }
        let nb = n / BLOCK_SIZE;
        let mut blocks: Vec<Vec<u8>> = Vec::new();
        let mut i: usize = 0;
        while i < nb
            invariant
                0 < nb,
                n == data@.len(),
                n == nb * BLOCK_SIZE,
                0 <= i <= nb,
                blocks@.len() == i,
                forall|k: int|
                    0 <= k < i ==> (#[trigger] blocks@[k])@ == data@.subrange(
                        k * BLOCK_SIZE,
                        k * BLOCK_SIZE + BLOCK_SIZE,
                    ),
            decreases nb - i,
        {
            let base = i * BLOCK_SIZE;
            let mut block: Vec<u8> = Vec::new();
            let mut j: usize = 0;
            while j < BLOCK_SIZE
                invariant
                    0 <= j <= BLOCK_SIZE,
                    i < nb,
                    n == data@.len(),
                    n == nb * BLOCK_SIZE,
                    base == i * BLOCK_SIZE,
                    block@ == data@.subrange(base as int, base + j),
                decreases BLOCK_SIZE - j,
            {
                proof {
                    assert(base + j < n) by (nonlinear_arith)
                        requires
                            base == i * BLOCK_SIZE,
                            n == nb * BLOCK_SIZE,
                            i < nb,
                            j < BLOCK_SIZE,
                            BLOCK_SIZE > 0,
                    ;
                }
                block.push(data[base + j]);
                proof {
                    assert(block@ =~= data@.subrange(base as int, base + j + 1));
                }
                j = j + 1;
            }
            blocks.push(block);
            i = i + 1;
        }
        let img = Image { blocks };
        proof {
            assert(forall|k: int|
                0 <= k < img@.len() ==> #[trigger] img@[k] == data@.subrange(
                    k * BLOCK_SIZE,
                    k * BLOCK_SIZE + BLOCK_SIZE,
                ));
            assert(forall|k: int| 0 <= k < img@.len() ==> (#[trigger] img@[k]).len() == BLOCK_SIZE);
        }
        Some(img)
    }

    /// Number of blocks in the image.
    pub fn nr_blocks(&self) -> (r: usize)
        ensures
            r == self@.len(),
    {
        self.blocks.len()
    }

    /// Fetches block `b`, or nothing when `b` lies beyond the device.
    pub fn get_block(&self, b: u64) -> (r: Option<&Vec<u8>>)
        ensures
            match r {
                Some(blk) => b < self@.len() && blk@ == self@[b as int],
                None => b >= self@.len(),
            },
    {
        let n = self.blocks.len();
        if b < n as u64 {
            Some(&self.blocks[b as usize])
        } else {
            None
        }
    }
}

} // verus!
