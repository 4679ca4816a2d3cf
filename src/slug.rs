use vstd::prelude::*;

verus! {

/// The Wikidot normal form of a name.
pub uninterp spec fn normalized(text: Seq<char>) -> Seq<char>;

/// Relies on wikidot_normalize::normalize, which rewrites its argument into
/// the Wikidot normal form; the result depends on the text alone.
#[verifier::external_body]
fn normalize(text: String) -> (r: String)
    ensures
        r@ == normalized(text@),
{
    let mut text = text;
    wikidot_normalize::normalize(&mut text);
    text
}

/// `text` with every colon turned into a dash.
pub open spec fn colons_to_dashes(text: Seq<char>) -> Seq<char> {
    text.map_values(|c: char| if c == ':' { '-' } else { c })
}

/// Replaces every colon of `name` by a dash.
pub fn replace_colons(name: &str) -> (r: String)
    ensures
        r@ == colons_to_dashes(name@),
{
    let n = name.unicode_len();
    let mut out = String::new();
    let mut i: usize = 0;
    while i < n
        invariant
            n == name@.len(),
            i <= n,
            out@ == colons_to_dashes(name@.subrange(0, i as int)),
        decreases n - i,
    {
        let c = name.get_char(i);
        let ghost before = out@;
        if c == ':' {
            let dash = "-";
            proof {
                reveal_strlit("-");
            }
            out.append(dash);
        } else {
            out.append(name.substring_char(i, i + 1));
        }
        assert(out@ == before.push(if c == ':' { '-' } else { c }));
        assert(colons_to_dashes(name@.subrange(0, i + 1)) == colons_to_dashes(
            name@.subrange(0, i as int),
        ).push(if c == ':' { '-' } else { c }));
        i = i + 1;
    }
    assert(name@.subrange(0, n as int) == name@);
    out
}

/// Normalizes a name to a slug, for sites and users: colons are not kept.
pub fn get_regular_slug(name: &str) -> (r: String)
    ensures
        r@ == normalized(colons_to_dashes(name@)),
{
    normalize(replace_colons(name))
}

} // verus!
