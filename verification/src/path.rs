//! From the fields of the input to a path: the numbers that the fields hold,
//! grouped into coordinates and checked against the geographic bounds, and the
//! segments between consecutive points.

use crate::coordinate::{validate_coordinates, Coordinate};
use vstd::prelude::*;

verus! {

/// One field of the input: its text and, where the text is a decimal number,
/// the pattern of the binary64 number that it was read as.
#[derive(Clone, Copy, Debug)]
pub struct Field<'a> {
    pub text: &'a str,
    pub number: Option<u64>,
}

/// Why an input gives no path.
#[derive(Debug, PartialEq, Eq)]
pub enum InputError {
    /// A field is not a number. `position` counts fields from 0.
    Parse { position: usize, text: String },
    /// A coordinate is out of bounds. `position` counts coordinates from 0.
    Validation { position: usize, coordinate: Coordinate },
    /// The input holds fewer than two numbers, so not one coordinate.
    Shape,
}

/// Every field holds a number.
pub open spec fn all_parsed(fields: Seq<Field>) -> bool {
    forall|i: int| 0 <= i < fields.len() ==> (#[trigger] fields[i]).number is Some
}

/// Field `i` holds no number, and every field before it holds one.
pub open spec fn is_first_unparsed(fields: Seq<Field>, i: int) -> bool {
    &&& 0 <= i < fields.len()
    &&& fields[i].number is None
    &&& all_parsed(fields.take(i))
}

/// The numbers of the fields, in order.
pub open spec fn numbers_of(fields: Seq<Field>) -> Seq<u64> {
    fields.map_values(|field: Field| field.number.unwrap())
}

/// The numbers taken two by two, latitude first. Of an odd count of numbers
/// the last is left out.
pub open spec fn pairs(numbers: Seq<u64>) -> Seq<Coordinate> {
    Seq::new(
        numbers.len() / 2,
        |i: int| Coordinate { latitude: numbers[2 * i], longitude: numbers[2 * i + 1] },
    )
}

/// The coordinates that the fields describe, where every field holds a number.
pub open spec fn coordinates_of(fields: Seq<Field>) -> Seq<Coordinate> {
    pairs(numbers_of(fields))
}

/// Every coordinate lies within the geographic bounds.
pub open spec fn all_in_bounds(points: Seq<Coordinate>) -> bool {
    forall|i: int| 0 <= i < points.len() ==> (#[trigger] points[i]).in_bounds()
}

/// Coordinate `i` is out of bounds, and every coordinate before it is within.
pub open spec fn is_first_out_of_bounds(points: Seq<Coordinate>, i: int) -> bool {
    &&& 0 <= i < points.len()
    &&& !points[i].in_bounds()
    &&& all_in_bounds(points.take(i))
}

/// Each point with the one that follows it, in order. One point, or none, has
/// no segment.
pub open spec fn segments_of(points: Seq<Coordinate>) -> Seq<(Coordinate, Coordinate)> {
    Seq::new(
        if points.len() > 0 {
            (points.len() - 1) as nat
        } else {
            0
        },
        |i: int| (points[i], points[i + 1]),
    )
}

/// A further point adds one segment, from the last point so far to the new
/// one, and leaves the segments before it as they were.
pub proof fn lemma_segments_of_push(points: Seq<Coordinate>, next: Coordinate)
    requires
        points.len() >= 1,
    ensures
        segments_of(points.push(next)) == segments_of(points).push((points.last(), next)),
{
}

/// The numbers that the fields hold, or the first field that holds none.
pub fn numbers(fields: &[Field]) -> (result: Result<Vec<u64>, InputError>)
    ensures
        result is Ok <==> all_parsed(fields@),
        result matches Err(InputError::Parse { .. }) <==> !all_parsed(fields@),
        (match result {
            Ok(values) => values@ == numbers_of(fields@),
            Err(InputError::Parse { position, text }) => (is_first_unparsed(
                fields@,
                position as int,
            ) && text@ == fields@[position as int].text@),
            Err(InputError::Validation { .. }) => false,
            Err(InputError::Shape) => false,
        }),
{
    let mut values: Vec<u64> = Vec::new();
    let mut i: usize = 0;
    while i < fields.len()
        invariant
            i <= fields.len(),
            all_parsed(fields@.take(i as int)),
            values@ == numbers_of(fields@.take(i as int)),
        decreases fields.len() - i,
    {
        match fields[i].number {
            Some(value) => {
                values.push(value);
            },
            None => {
                let text = fields[i].text.to_owned();
                return Err(InputError::Parse { position: i, text });
            },
        }
        i += 1;
    }
    proof {
        assert(fields@.take(i as int) == fields@);
    }
    Ok(values)
}

/// Groups the numbers two by two into coordinates, latitude first. Of an odd
/// count of numbers the last is left out.
pub fn pair_up(numbers: &[u64]) -> (points: Vec<Coordinate>)
    ensures
        points@ == pairs(numbers@),
{
    let count: usize = numbers.len() / 2;
    let mut points: Vec<Coordinate> = Vec::new();
    let mut i: usize = 0;
    while i < count
        invariant
            i <= count,
            count == numbers.len() / 2,
            points@ == pairs(numbers@).take(i as int),
        decreases count - i,
    {
        points.push(Coordinate { latitude: numbers[2 * i], longitude: numbers[2 * i + 1] });
        i += 1;
    }
    points
}

/// One or more coordinates, each within the geographic bounds, in the order
/// in which they are visited.
#[derive(Debug)]
pub struct Path {
    points: Vec<Coordinate>,
}

impl View for Path {
    type V = Seq<Coordinate>;

    closed spec fn view(&self) -> Seq<Coordinate> {
        self.points@
    }
}

impl Path {
    #[verifier::type_invariant]
    spec fn well_formed(self) -> bool {
        self.points@.len() >= 1 && all_in_bounds(self.points@)
    }

    /// The path through the given points, or the first of them that is out of
    /// bounds. No path goes through no points.
    pub fn new(points: Vec<Coordinate>) -> (result: Result<Path, InputError>)
        ensures
            result is Ok <==> points@.len() >= 1 && all_in_bounds(points@),
            result matches Err(InputError::Validation { .. }) <==> !all_in_bounds(points@),
            result matches Err(InputError::Shape) <==> points@.len() == 0,
            (match result {
                Ok(path) => path@ == points@,
                Err(InputError::Validation { position, coordinate }) => (is_first_out_of_bounds(
                    points@,
                    position as int,
                ) && coordinate == points@[position as int]),
                Err(InputError::Shape) => true,
                Err(InputError::Parse { .. }) => false,
            }),
    {
        let mut i: usize = 0;
        while i < points.len()
            invariant
                i <= points.len(),
                all_in_bounds(points@.take(i as int)),
            decreases points.len() - i,
        {
            if !validate_coordinates(&points[i]) {
                return Err(InputError::Validation { position: i, coordinate: points[i] });
            }
            i += 1;
        }
        proof {
            assert(points@.take(i as int) == points@);
        }
        if points.len() == 0 {
            return Err(InputError::Shape);
        }
        Ok(Path { points })
    }

    /// The points of the path, in order.
    pub fn points(&self) -> (points: &[Coordinate])
        ensures
            points@ == self@,
            points@.len() >= 1,
            all_in_bounds(points@),
    {
        proof {
            use_type_invariant(self);
        }
        self.points.as_slice()
    }

    /// The segments of the path: each point with the one that follows it, in
    /// the order of travel. A path of `n` points has `n - 1` segments.
    pub fn segments(&self) -> (segments: Vec<(Coordinate, Coordinate)>)
        ensures
            segments@ == segments_of(self@),
    {
        proof {
            use_type_invariant(self);
        }
        let count: usize = self.points.len() - 1;
        let mut segments: Vec<(Coordinate, Coordinate)> = Vec::new();
        let mut i: usize = 0;
        while i < count
            invariant
                i <= count,
                count == self.points.len() - 1,
                segments@ == segments_of(self.points@).take(i as int),
            decreases count - i,
        {
            segments.push((self.points[i], self.points[i + 1]));
            i += 1;
        }
        segments
    }
}

/// The path that the fields describe.
///
/// The first field that holds no number is a parse error, wherever it stands.
/// Otherwise the numbers are taken two by two as coordinates, a last odd one
/// being left out, and the first coordinate out of bounds is a validation
/// error. Fewer than two numbers describe no path.
pub fn read_path(fields: &[Field]) -> (result: Result<Path, InputError>)
    ensures
        result is Ok <==> (all_parsed(fields@) && fields@.len() >= 2 && all_in_bounds(
            coordinates_of(fields@),
        )),
        result matches Err(InputError::Parse { .. }) <==> !all_parsed(fields@),
        result matches Err(InputError::Validation { .. }) <==> (all_parsed(fields@)
            && !all_in_bounds(coordinates_of(fields@))),
        result matches Err(InputError::Shape) <==> (all_parsed(fields@) && fields@.len() < 2),
        (match result {
            Ok(path) => path@ == coordinates_of(fields@),
            Err(InputError::Parse { position, text }) => (is_first_unparsed(
                fields@,
                position as int,
            ) && text@ == fields@[position as int].text@),
            Err(InputError::Validation { position, coordinate }) => (is_first_out_of_bounds(
                coordinates_of(fields@),
                position as int,
            ) && coordinate == coordinates_of(fields@)[position as int]),
            Err(InputError::Shape) => true,
        }),
{
    match numbers(fields) {
        Ok(values) => Path::new(pair_up(values.as_slice())),
        Err(error) => Err(error),
    }
}

} // verus!
