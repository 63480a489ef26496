//! Text for the values of a list.

use vstd::prelude::*;
use vstd::string::to_string_from_display_ensures;
use std::fmt::Display;

verus! {

/// What stands between two values in the text of a list: a comma and a space.
pub open spec fn separator() -> Seq<char> {
    seq![',', ' ']
}

/// The texts of `parts` one after another, with a separator between each two.
pub open spec fn comma_separated(parts: Seq<Seq<char>>) -> Seq<char>
    decreases parts.len(),
{
    if parts.len() == 0 {
        Seq::empty()
    } else if parts.len() == 1 {
        parts[0]
    } else {
        comma_separated(parts.drop_last()) + separator() + parts.last()
    }
}

/// The characters of each text of `parts`.
pub open spec fn texts_of(parts: Seq<String>) -> Seq<Seq<char>> {
    Seq::new(parts.len(), |i: int| parts[i]@)
}

/// `parts` holds, for each value of `vals` in turn, a text that the value displays as.
pub open spec fn displayed_as<T: Display>(vals: Seq<T>, parts: Seq<String>) -> bool {
    &&& parts.len() == vals.len()
    &&& forall|i: int|
        0 <= i < vals.len() ==> to_string_from_display_ensures::<T>(&vals[i], #[trigger] parts[i])
}

/// Joins the texts of `parts` into one, with a comma and a space between each two.
pub fn join_with_commas(parts: &Vec<String>) -> (text: String)
    ensures
        text@ == comma_separated(texts_of(parts@)),
{
    let mut text = String::new();
    let mut done: usize = 0;
    while done < parts.len()
        invariant
            done <= parts.len(),
            text@ == comma_separated(texts_of(parts@.take(done as int))),
        decreases parts.len() - done,
    {
        if done > 0 {
            proof {
                reveal_strlit(", ");
            }
            text.append(", ");
        }
        text.append(parts[done].as_str());
        assert(texts_of(parts@.take(done + 1)).drop_last() =~= texts_of(parts@.take(done as int)));
        done = done + 1;
    }
    assert(parts@.take(done as int) =~= parts@);
    text
}

} // verus!
