//! Small helpers on text.

use vstd::prelude::*;

verus! {

/// `String::push`. Trusted: the character is appended and nothing else
/// changes.
#[verifier::external_body]
pub(crate) fn push_char(text: &mut String, c: char)
    ensures
        final(text)@ == old(text)@.push(c),
{
    text.push(c)
}

/// `name` with each space replaced by a dash.
pub open spec fn sanitized(name: Seq<char>) -> Seq<char> {
    name.map_values(
        |c: char|
            if c == ' ' {
                '-'
            } else {
                c
            },
    )
}

/// Sanitize a sensor name by replacing spaces with dashes.
pub fn sanitize_sensor_name(name: String) -> (clean: String)
    ensures
        clean@ == sanitized(name@),
{
    let mut clean = String::new();
    for c in it: name.as_str().chars()
        invariant
            it.seq() == name@,
            clean@ == sanitized(name@.take(it.index() as int)),
    {
        proof {
            let i = it.index() as int;
            assert(sanitized(name@.take(i + 1)) =~= sanitized(name@.take(i)).push(
                if c == ' ' {
                    '-'
                } else {
                    c
                },
            ));
        }
        if c == ' ' {
            push_char(&mut clean, '-');
        } else {
            push_char(&mut clean, c);
        }
    }
    proof {
        assert(name@.take(name@.len() as int) == name@);
    }
    clean
}

} // verus!
