use vstd::prelude::*;

verus! {

/// A line the specification parsers skip: empty, or starting with `//`.
pub open spec fn spec_empty_or_comment(line: Seq<u8>) -> bool {
    line.len() == 0 || (line.len() >= 2 && line[0] == 47 && line[1] == 47)
}

/// Whether the parsers skip this line.
pub fn empty_or_comment(line: &[u8]) -> (r: bool)
    ensures
        r == spec_empty_or_comment(line@),
{
    line.len() == 0 || (line.len() >= 2 && line[0] == 47 && line[1] == 47)
}

/// A byte admitted in a name: `[A-Za-z0-9_-]`.
pub open spec fn is_name_byte(b: u8) -> bool {
    (97 <= b <= 122) || (65 <= b <= 90) || (48 <= b <= 57) || b == 95 || b == 45
}

/// A valid name: non-empty, every byte in `[A-Za-z0-9_-]`.
pub open spec fn spec_valid_name(s: Seq<u8>) -> bool {
    s.len() >= 1 && forall|j: int| 0 <= j < s.len() ==> is_name_byte(#[trigger] s[j])
}

/// Whether the name is non-empty and uses only admitted characters.
pub fn validate_name(name: &[u8]) -> (r: bool)
    ensures
        r == spec_valid_name(name@),
{
    if name.len() == 0 {
        return false;
    }
    let mut i: usize = 0;
    while i < name.len()
        invariant
            i <= name.len(),
            forall|j: int| 0 <= j < i ==> is_name_byte(#[trigger] name@[j]),
        decreases name.len() - i,
    {
        let c = name[i];
        let alpha = (c >= 97 && c <= 122) || (c >= 65 && c <= 90);
        let numeric = c >= 48 && c <= 57;
        let special = c == 95 || c == 45;
        if !alpha && !numeric && !special {
            return false;
        }
        i += 1;
    }
    true
}

} // verus!
