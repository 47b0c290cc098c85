//! A small record for timing JSON codecs.

use vstd::prelude::*;

verus! {

#[derive(Clone, Debug)]
pub struct TestData {
    pub id: u64,
    pub name: String,
    pub values: Vec<i32>,
    pub metadata: Option<String>,
}

/// The note that the sample carries.
pub open spec fn sample_metadata() -> Seq<char> {
    "sample metadata"@
}

impl TestData {
    /// The sample record: eight values and a short note.
    pub fn sample() -> (data: TestData)
        ensures
            data.id == 12345,
            data.name@ == "test_user"@,
            data.values@ == seq![1i32, 2, 3, 4, 5, 10, 20, 30],
            data.metadata matches Some(m) && m@ == sample_metadata(),
    {
        let mut values: Vec<i32> = Vec::new();
        values.push(1);
        values.push(2);
        values.push(3);
        values.push(4);
        values.push(5);
        values.push(10);
        values.push(20);
        values.push(30);
        assert(values@ =~= seq![1i32, 2, 3, 4, 5, 10, 20, 30]);
        TestData {
            id: 12345,
            name: "test_user".to_owned(),
            values,
            metadata: Some("sample metadata".to_owned()),
        }
    }
}

} // verus!
