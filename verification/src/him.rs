//! The heightmap of one tile of a map: a grid of height samples.

use crate::errors::Error;
use crate::io::reader::ReadRoseExt;
use crate::io::runs::{count32, lemma_repeated_fails, repeated};
use crate::io::stream::SeekRoseExt;
use crate::io::wire::{f32_at, fits, fixed, i32_at};
use crate::utils::Float32;
use vstd::prelude::*;

verus! {

/// The heights of one tile, row by row, with the lowest and the highest of
/// them.
#[derive(Debug)]
pub struct Heightmap {
    pub width: i32,
    pub height: i32,
    pub grid_count: i32,
    pub scale: Float32,
    /// `height` rows of `width` samples each.
    pub heights: Vec<Vec<Float32>>,
    pub min_height: Float32,
    pub max_height: Float32,
}

/// A heightmap as the contracts see it.
#[verifier::ext_equal]
pub struct HeightmapData {
    pub width: i32,
    pub height: i32,
    pub grid_count: i32,
    pub scale: Float32,
    pub heights: Seq<Seq<Float32>>,
    pub min_height: Float32,
    pub max_height: Float32,
}

/// The rows of a grid, each by its samples.
pub open spec fn rows_view(rows: Seq<Vec<Float32>>) -> Seq<Seq<Float32>> {
    rows.map_values(|row: Vec<Float32>| row@)
}

impl View for Heightmap {
    type V = HeightmapData;

    open spec fn view(&self) -> HeightmapData {
        HeightmapData {
            width: self.width,
            height: self.height,
            grid_count: self.grid_count,
            scale: self.scale,
            heights: rows_view(self.heights@),
            min_height: self.min_height,
            max_height: self.max_height,
        }
    }
}

/// The lower of a running minimum and one more sample: the sample where the
/// minimum is still NaN or the sample is less, and the minimum otherwise.
pub open spec fn lower(low: Float32, sample: Float32) -> Float32 {
    if low.spec_is_nan() || sample.spec_lt(low) {
        sample
    } else {
        low
    }
}

/// The higher of a running maximum and one more sample.
pub open spec fn higher(high: Float32, sample: Float32) -> Float32 {
    if high.spec_is_nan() || high.spec_lt(sample) {
        sample
    } else {
        high
    }
}

/// The running minimum after the samples of a row, begun with `low`.
pub open spec fn lowest(row: Seq<Float32>, low: Float32) -> Float32
    decreases row.len(),
{
    if row.len() == 0 {
        low
    } else {
        lower(lowest(row.drop_last(), low), row.last())
    }
}

/// The running maximum after the samples of a row, begun with `high`.
pub open spec fn highest(row: Seq<Float32>, high: Float32) -> Float32
    decreases row.len(),
{
    if row.len() == 0 {
        high
    } else {
        higher(highest(row.drop_last(), high), row.last())
    }
}

/// The running minimum after the rows of a grid, begun with `low`.
pub open spec fn lowest_of(rows: Seq<Seq<Float32>>, low: Float32) -> Float32
    decreases rows.len(),
{
    if rows.len() == 0 {
        low
    } else {
        lowest(rows.last(), lowest_of(rows.drop_last(), low))
    }
}

/// The running maximum after the rows of a grid, begun with `high`.
pub open spec fn highest_of(rows: Seq<Seq<Float32>>, high: Float32) -> Float32
    decreases rows.len(),
{
    if rows.len() == 0 {
        high
    } else {
        highest(rows.last(), highest_of(rows.drop_last(), high))
    }
}

/// `n` samples from `pos` on.
pub open spec fn samples_at(s: Seq<u8>, pos: nat, n: nat) -> Seq<Float32> {
    Seq::new(n, |k: int| f32_at(s, (pos + 4 * k) as nat))
}

/// The row of `width` samples that stands at `pos`.
pub open spec fn row_at(s: Seq<u8>, pos: nat, width: nat) -> Option<(Seq<Float32>, nat)> {
    fixed(s, pos, 4 * width, samples_at(s, pos, width))
}

/// The heightmap that stands at `pos`: width, height and grid count, the
/// scale, and the samples row by row. A width or a height that is negative
/// counts as none. The minimum and the maximum are those that run over the
/// samples in the order of the wire, both begun with NaN.
pub open spec fn heightmap_at(s: Seq<u8>, pos: nat) -> Option<(HeightmapData, nat)> {
    if fits(s, pos, 16) {
        let width = i32_at(s, pos);
        let height = i32_at(s, pos + 4);
        match repeated(
            s,
            pos + 16,
            count32(height),
            |s: Seq<u8>, p: nat| row_at(s, p, count32(width)),
        ) {
            None => None,
            Some((heights, end)) => Some(
                (
                    HeightmapData {
                        width,
                        height,
                        grid_count: i32_at(s, pos + 8),
                        scale: f32_at(s, pos + 12),
                        heights,
                        min_height: lowest_of(heights, Float32::nan()),
                        max_height: highest_of(heights, Float32::nan()),
                    },
                    end,
                ),
            ),
        }
    } else {
        None
    }
}

/// Reads one row of samples, and carries the running minimum and maximum
/// over it.
fn read_row<R: ReadRoseExt>(reader: &mut R, width: usize, low: Float32, high: Float32) -> (r:
    Result<(Vec<Float32>, Float32, Float32), Error>)
    ensures
        final(reader).stream() == old(reader).stream(),
        match row_at(old(reader).stream(), old(reader).offset(), width as nat) {
            Some((row, end)) => r is Ok && r->Ok_0.0@ == row && r->Ok_0.1 == lowest(row, low)
                && r->Ok_0.2 == highest(row, high) && final(reader).offset() == end,
            None => r is Err && r->Err_0 == Error::UnexpectedEof && final(reader).offset()
                == old(reader).stream().len(),
        },
{
    let ghost s = reader.stream();
    let ghost pos = reader.offset();
    proof {
        reader.lemma_offset_in_stream();
    }
    let mut row: Vec<Float32> = Vec::new();
    let mut low = low;
    let mut high = high;
    let ghost low0 = low;
    let ghost high0 = high;
    let mut i: usize = 0;
    while i < width
        invariant
            reader.stream() == s,
            s == old(reader).stream(),
            pos == old(reader).offset(),
            i <= width,
            reader.offset() == pos + 4 * i,
            fits(s, pos, (4 * i) as nat),
            row@ == samples_at(s, pos, i as nat),
            low == lowest(row@, low0),
            high == highest(row@, high0),
        decreases width - i,
    {
        let ghost before = row@;
        let sample = reader.read_f32()?;
        if low.is_nan() || sample.lt(low) {
            low = sample;
        }
        if high.is_nan() || high.lt(sample) {
            high = sample;
        }
        row.push(sample);
        i += 1;
        proof {
            assert(row@ =~= samples_at(s, pos, i as nat));
            assert(row@.drop_last() =~= before);
        }
    }
    Ok((row, low, high))
}

impl Heightmap {
    /// A heightmap without samples; its minimum and maximum are NaN.
    pub fn new() -> (map: Heightmap)
        ensures
            map@ == (HeightmapData {
                width: 0,
                height: 0,
                grid_count: 0,
                scale: Float32::zero(),
                heights: Seq::<Seq<Float32>>::empty(),
                min_height: Float32::nan(),
                max_height: Float32::nan(),
            }),
    {
        let map = Heightmap {
            width: 0,
            height: 0,
            grid_count: 0,
            scale: Float32::new(),
            heights: Vec::new(),
            min_height: Float32::from_bits(Float32::NAN_BITS),
            max_height: Float32::from_bits(Float32::NAN_BITS),
        };
        proof {
            assert(map@.heights =~= Seq::<Seq<Float32>>::empty());
        }
        map
    }

    /// Reads a heightmap from the cursor onwards into `self`, in place of
    /// what it held. What the stream holds after the samples is left
    /// unread. Where the stream ends too early, `self` is left as it was,
    /// and the cursor stands at the end of the stream.
    pub fn read<R: ReadRoseExt>(&mut self, reader: &mut R) -> (r: Result<(), Error>)
        ensures
            final(reader).stream() == old(reader).stream(),
            match heightmap_at(old(reader).stream(), old(reader).offset()) {
                Some((map, end)) => r is Ok && final(self)@ == map && final(reader).offset()
                    == end,
                None => r == Err::<(), Error>(Error::UnexpectedEof) && *final(self) == *old(self)
                    && final(reader).offset() == old(reader).stream().len(),
            },
    {
        let ghost s = reader.stream();
        let ghost pos = reader.offset();
        let width = reader.read_i32()?;
        let height = reader.read_i32()?;
        let grid_count = reader.read_i32()?;
        let scale = reader.read_f32()?;
        let columns: usize = if width > 0 {
            width as usize
        } else {
            0
        };
        let rows: usize = if height > 0 {
            height as usize
        } else {
            0
        };
        let ghost item = |s: Seq<u8>, p: nat| row_at(s, p, count32(width));
        let mut heights: Vec<Vec<Float32>> = Vec::new();
        let mut min_height = Float32::from_bits(Float32::NAN_BITS);
        let mut max_height = Float32::from_bits(Float32::NAN_BITS);
        proof {
            assert(rows_view(heights@) =~= Seq::<Seq<Float32>>::empty());
        }
        let mut h: usize = 0;
        while h < rows
            invariant
                reader.stream() == s,
                s == old(reader).stream(),
                pos == old(reader).offset(),
                *self == *old(self),
                fits(s, pos, 16),
                width == i32_at(s, pos),
                height == i32_at(s, pos + 4),
                columns == count32(width),
                rows == count32(height),
                item == (|s: Seq<u8>, p: nat| row_at(s, p, count32(width))),
                h <= rows,
                repeated(s, pos + 16, h as nat, item) == Some(
                    (rows_view(heights@), reader.offset()),
                ),
                min_height == lowest_of(rows_view(heights@), Float32::nan()),
                max_height == highest_of(rows_view(heights@), Float32::nan()),
            decreases rows - h,
        {
            let ghost before = heights@;
            match read_row(reader, columns, min_height, max_height) {
                Ok((row, low, high)) => {
                    heights.push(row);
                    min_height = low;
                    max_height = high;
                    proof {
                        assert(rows_view(heights@) =~= rows_view(before).push(row@));
                        assert(rows_view(heights@).drop_last() =~= rows_view(before));
                    }
                },
                Err(e) => {
                    proof {
                        assert(repeated(s, pos + 16, (h + 1) as nat, item) is None);
                        lemma_repeated_fails(s, pos + 16, (h + 1) as nat, rows as nat, item);
                    }
                    return Err(e);
                },
            }
            h += 1;
        }
        self.width = width;
        self.height = height;
        self.grid_count = grid_count;
        self.scale = scale;
        self.heights = heights;
        self.min_height = min_height;
        self.max_height = max_height;
        Ok(())
    }
}

} // verus!
