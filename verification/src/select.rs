//! The frame selector: maps a caller's selection — a list of weighted frame
//! numbers, or a plain set of indices held against the directory listing — to
//! the frame files to load.

use crate::error::EngineError;
use crate::names::{
    frame_file_name, parse_frame_index, spec_frame_file_name, spec_parse_frame_index,
};
use vstd::prelude::*;

verus! {

/// One caller-selected frame: its number in the extracted sequence and the
/// weight its pixels carry in the blend. The weight is a fixed-point value
/// whose unit does not matter, since the blend normalizes the weights.
#[derive(Clone, Copy, Debug, PartialEq, Eq, Structural)]
pub struct FrameData {
    pub frame_number: usize,
    pub frame_weight: u32,
}

/// A resolved selection entry: the frame's number, the file it lives in, and
/// its weight.
#[derive(Debug)]
pub struct FrameSelection {
    pub frame_number: usize,
    pub file_name: String,
    pub weight: u32,
}

/// Resolves a weighted selection: each entry's file name follows the naming
/// convention, and the order and weights of the request are kept. An empty
/// selection resolves to no frames at all and is refused.
pub fn select_frames(frames_data: &Vec<FrameData>) -> (r: Result<Vec<FrameSelection>, EngineError>)
    ensures
        match r {
            Result::Ok(sel) => {
                &&& frames_data@.len() > 0
                &&& sel@.len() == frames_data@.len()
                &&& forall|i: int|
                    0 <= i < sel@.len() ==> {
                        &&& (#[trigger] sel@[i]).frame_number == frames_data@[i].frame_number
                        &&& sel@[i].weight == frames_data@[i].frame_weight
                        &&& sel@[i].file_name@ == spec_frame_file_name(
                            frames_data@[i].frame_number as int,
                        )
                    }
            },
            Result::Err(e) => e == EngineError::NotFound && frames_data@.len() == 0,
        },
{
    if frames_data.len() == 0 {
        return Err(EngineError::NotFound);
    }
    let mut sel: Vec<FrameSelection> = Vec::new();
    let mut i: usize = 0;
    while i < frames_data.len()
        invariant
            0 <= i <= frames_data@.len(),
            sel@.len() == i,
            forall|k: int|
                0 <= k < i ==> {
                    &&& (#[trigger] sel@[k]).frame_number == frames_data@[k].frame_number
                    &&& sel@[k].weight == frames_data@[k].frame_weight
                    &&& sel@[k].file_name@ == spec_frame_file_name(
                        frames_data@[k].frame_number as int,
                    )
                },
        decreases frames_data@.len() - i,
    {
        let fd = frames_data[i];
        let name = frame_file_name(fd.frame_number as u64);
        sel.push(
            FrameSelection {
                frame_number: fd.frame_number,
                file_name: name,
                weight: fd.frame_weight,
            },
        );
        i = i + 1;
    }
    Ok(sel)
}

/// Whether a listed file belongs to the requested index set: its name's
/// trailing numeric suffix parses and the parsed index was asked for.
pub open spec fn spec_keep_name(name: Seq<char>, indices: Seq<usize>) -> bool {
    match spec_parse_frame_index(name) {
        Option::Some(v) => exists|j: int| 0 <= j < indices.len() && indices[j] == v,
        Option::None => false,
    }
}

/// The files of a directory listing that the requested index set keeps, in
/// listing order, each with its parsed index.
pub open spec fn spec_index_selection(listing: Seq<String>, indices: Seq<usize>) -> Seq<
    (Seq<char>, int),
>
    decreases listing.len(),
{
    if listing.len() == 0 {
        Seq::empty()
    } else {
        let rest = spec_index_selection(listing.drop_last(), indices);
        if spec_keep_name(listing.last()@, indices) {
            rest.push((listing.last()@, spec_parse_frame_index(listing.last()@).unwrap()))
        } else {
            rest
        }
    }
}

/// Whether the requested index set holds a value.
fn contains_index(indices: &Vec<usize>, v: u64) -> (r: bool)
    ensures
        r == exists|j: int| 0 <= j < indices@.len() && indices@[j] == v,
{
    let mut j: usize = 0;
    while j < indices.len()
        invariant
            0 <= j <= indices@.len(),
            forall|k: int| 0 <= k < j ==> indices@[k] != v,
        decreases indices@.len() - j,
    {
        if (indices[j] as u64) == v {
            return true;
        }
        j = j + 1;
    }
    false
}

/// Resolves a plain index selection against the directory listing, the legacy
/// way: every listed file whose name's trailing numeric suffix parses to a
/// requested index is kept, in listing order, with a uniform weight. Fails
/// with `NotFound` when no file resolves.
pub fn select_by_indices(listing: &Vec<String>, indices: &Vec<usize>) -> (r: Result<
    Vec<FrameSelection>,
    EngineError,
>)
    ensures
        match r {
            Result::Ok(sel) => {
                &&& spec_index_selection(listing@, indices@).len() > 0
                &&& sel@.len() == spec_index_selection(listing@, indices@).len()
                &&& forall|i: int|
                    0 <= i < sel@.len() ==> {
                        &&& (#[trigger] sel@[i]).file_name@ == spec_index_selection(
                            listing@,
                            indices@,
                        )[i].0
                        &&& sel@[i].frame_number == spec_index_selection(listing@, indices@)[i].1
                        &&& sel@[i].weight == 1
                    }
            },
            Result::Err(e) => e == EngineError::NotFound && spec_index_selection(
                listing@,
                indices@,
            ).len() == 0,
        },
{
    let mut sel: Vec<FrameSelection> = Vec::new();
    let mut i: usize = 0;
    while i < listing.len()
        invariant
            0 <= i <= listing@.len(),
            sel@.len() == spec_index_selection(listing@.subrange(0, i as int), indices@).len(),
            forall|k: int|
                0 <= k < sel@.len() ==> {
                    &&& (#[trigger] sel@[k]).file_name@ == spec_index_selection(
                        listing@.subrange(0, i as int),
                        indices@,
                    )[k].0
                    &&& sel@[k].frame_number == spec_index_selection(
                        listing@.subrange(0, i as int),
                        indices@,
                    )[k].1
                    &&& sel@[k].weight == 1
                },
        decreases listing@.len() - i,
    {
        let ghost prefix = listing@.subrange(0, i as int);
        let ghost next = listing@.subrange(0, i + 1 as int);
        proof {
            assert(next.drop_last() =~= prefix);
            assert(next.last() == listing@[i as int]);
        }
        match parse_frame_index(listing[i].as_str()) {
            Some(v) => {
                if contains_index(indices, v) {
                    let name = listing[i].clone();
                    sel.push(
                        FrameSelection { frame_number: v as usize, file_name: name, weight: 1 },
                    );
                    proof {
                        let full = spec_index_selection(next, indices@);
                        assert(full == spec_index_selection(prefix, indices@).push(
                            (listing@[i as int]@, v as int),
                        ));
                    }
                } else {
                    proof {
                        assert(!spec_keep_name(listing@[i as int]@, indices@));
                    }
                }
            },
            None => {
                proof {
                    if spec_parse_frame_index(listing@[i as int]@) is Some {
                        let ghost w = spec_parse_frame_index(listing@[i as int]@).unwrap();
                        assert(w > u64::MAX);
                        assert(forall|j: int|
                            0 <= j < indices@.len() ==> (#[trigger] indices@[j]) <= u64::MAX);
                        assert(!spec_keep_name(listing@[i as int]@, indices@));
                    }
                }
            },
        }
        i = i + 1;
    }
    proof {
        assert(listing@.subrange(0, listing@.len() as int) =~= listing@);
    }
    if sel.len() == 0 {
        return Err(EngineError::NotFound);
    }
    Ok(sel)
}

} // verus!
