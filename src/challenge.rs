//! A challenge as handed to a client.
use vstd::prelude::*;
use vstd::string::*;

use crate::sampler::Draw;

verus! {

/// A rendered challenge: the grid image, its topic, and the expected answer.
#[derive(Debug)]
pub struct Challenge {
    /// A UUID in its hyphenated text form.
    pub id: String,
    /// The grid image, WebP encoded.
    pub image: Vec<u8>,
    /// The name of the collection whose images are to be picked.
    pub topic: String,
    /// `'1'` for each cell showing the topic, `'0'` for the others, row by row.
    pub answer: String,
    pub image_size: u32,
    pub gap_size: u32,
    pub grid_length: u32,
}

impl Challenge {
    /// A one-line summary: `ID: <id>, topic: <topic>, answer: <answer>`.
    pub fn describe(&self) -> (r: String)
        ensures
            r@ == "ID: "@ + self.id@ + ", topic: "@ + self.topic@ + ", answer: "@ + self.answer@,
    {
        let mut r = String::new();
        r.append("ID: ");
        r.append(self.id.as_str());
        r.append(", topic: ");
        r.append(self.topic.as_str());
        r.append(", answer: ");
        r.append(self.answer.as_str());
        assert(r@ =~= "ID: "@ + self.id@ + ", topic: "@ + self.topic@ + ", answer: "@ + self.answer@);
        r
    }
}

impl Draw {
    /// The challenge made of this draw and its rendered grid image.
    pub fn into_challenge(self, image: Vec<u8>, image_size: u32, gap_size: u32, grid_length: u32) -> (r:
        Challenge)
        ensures
            r.id == self.id,
            r.topic == self.topic,
            r.answer == self.answer,
            r.image == image,
            r.image_size == image_size,
            r.gap_size == gap_size,
            r.grid_length == grid_length,
    {
        Challenge {
            id: self.id,
            image,
            topic: self.topic,
            answer: self.answer,
            image_size,
            gap_size,
            grid_length,
        }
    }
}

} // verus!
