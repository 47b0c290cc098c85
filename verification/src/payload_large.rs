//! A large record for timing JSON codecs.

use vstd::prelude::*;

verus! {

#[derive(Clone, Debug)]
pub struct TestData {
    pub id: u64,
    pub name: String,
    pub values: Vec<i32>,
    pub metadata: Option<String>,
}

/// The number of values in the sample.
pub const SAMPLE_VALUES: i32 = 10_000;

/// The note that the sample carries.
pub open spec fn sample_metadata() -> Seq<char> {
    "sample metadata with much more content to simulate larger payloads in real world scenarios where we need to serialize and deserialize substantial amounts of data"@
}

impl TestData {
    /// The sample record: the numbers from one to ten thousand, and a long
    /// note.
    pub fn sample() -> (data: TestData)
        ensures
            data.id == 12345,
            data.name@ == "test_user"@,
            data.values@.len() == SAMPLE_VALUES,
            forall|i: int| 0 <= i < SAMPLE_VALUES ==> data.values@[i] == i + 1,
            data.metadata matches Some(m) && m@ == sample_metadata(),
    {
        let mut values: Vec<i32> = Vec::new();
        let mut n: i32 = 0;
        while n < SAMPLE_VALUES
            invariant
                0 <= n <= SAMPLE_VALUES,
                values@.len() == n,
                forall|i: int| 0 <= i < n ==> values@[i] == i + 1,
            decreases SAMPLE_VALUES - n,
        {
            n += 1;
            values.push(n);
        }
        TestData {
            id: 12345,
            name: "test_user".to_owned(),
            values,
            metadata: Some(
                "sample metadata with much more content to simulate larger payloads in real world scenarios where we need to serialize and deserialize substantial amounts of data".to_owned(),
            ),
        }
    }
}

} // verus!
