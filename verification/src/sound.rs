use vstd::prelude::*;

verus! {

/// Identifies the cue a click should play: the built-in click, or a named
/// custom sound that the listener resolves against its sound directory.
#[derive(Debug)]
pub enum SoundRef {
    DefaultCue,
    Named(String),
}

impl Clone for SoundRef {
    fn clone(&self) -> (r: Self)
        ensures
            r == *self,
    {
        match self {
            SoundRef::DefaultCue => SoundRef::DefaultCue,
            SoundRef::Named(n) => SoundRef::Named(n.clone()),
        }
    }
}

/// Mathematical shape of a `SoundRef`: the name carried as a char sequence.
pub enum SoundSpec {
    DefaultCue,
    Named(Seq<char>),
}

impl View for SoundRef {
    type V = SoundSpec;

    open spec fn view(&self) -> SoundSpec {
        match self {
            SoundRef::DefaultCue => SoundSpec::DefaultCue,
            SoundRef::Named(n) => SoundSpec::Named(n@),
        }
    }
}

/// What sanitizing a sound name yields: every path separator becomes an
/// underscore, every other character stays where it is.
pub open spec fn sanitized(s: Seq<char>) -> Seq<char> {
    s.map_values(|c: char| if c == '/' { '_' } else { c })
}

/// Relies on str::replace: with a single-character pattern, every occurrence
/// of that character is replaced by the replacement string, and all other
/// characters are kept unchanged, in order.
#[verifier::external_body]
fn replace_separators(s: &str) -> (r: String)
    ensures
        r@ == sanitized(s@),
{
    s.replace('/', "_")
}

/// Sanitize a clicker-chosen sound name so it cannot name a path outside the
/// listener's sound directory.
pub fn sanitize_sound_name(s: &str) -> (r: String)
    ensures
        r@ == sanitized(s@),
        r@.len() == s@.len(),
{
    replace_separators(s)
}

/// The file name a named sound resolves to inside the listener's sound
/// directory: the name with the `.ogg` extension. The default cue is built
/// in and needs no file at all.
pub fn sound_file_name(s: &SoundRef) -> (r: Option<String>)
    ensures
        match s {
            SoundRef::DefaultCue => r is None,
            SoundRef::Named(n) => r matches Some(f) && f@ == n@ + ".ogg"@,
        },
{
    match s {
        SoundRef::DefaultCue => None,
        SoundRef::Named(n) => Some(n.clone().concat(".ogg")),
    }
}

} // verus!
