use vstd::prelude::*;

verus! {

/// An entry of a filter: a 32-byte token.
pub type Entry = [u8; 32];

/// `std::io::Error`, carried through as an opaque value.
#[verifier::external_type_specification]
#[verifier::external_body]
pub struct ExIoError(std::io::Error);

/// Whether an entry was already seen.
pub enum FilterResult {
    Exist,
    NotExist,
}

/// A set of tokens that remembers what it was given, used to refuse a token the
/// second time it is presented.
///
/// `tokens` is the set of entries inserted so far. `admits` is what `test`
/// answers: whether an entry counts as new. An inserted entry is never
/// admitted; an implementation may, like a Bloom filter, also refuse some
/// entries it was never given.
pub trait FilterBox: Sized {
    spec fn tokens(&self) -> Set<Seq<u8>>;

    spec fn admits(&self, token: Seq<u8>) -> bool;

    fn from_entries(tokens: &[Entry]) -> (r: std::io::Result<Self>)
        ensures
            r matches Ok(f) ==> forall|i: int|
                0 <= i < tokens@.len() ==> #[trigger] f.tokens().contains(tokens@[i]@),
    ;

    fn insert(&mut self, token: &Entry) -> (r: std::io::Result<()>)
        ensures
            r is Ok ==> final(self).tokens() == old(self).tokens().insert(token@),
            r is Err ==> final(self).tokens() == old(self).tokens(),
    ;

    fn test(&self, token: &Entry) -> (r: bool)
        ensures
            r == self.admits(token@),
            self.tokens().contains(token@) ==> !r,
    ;

    /// Tests an entry and, when it is new, remembers it. An entry that `test`
    /// refuses gives `Ok(false)` and changes nothing; one that it admits is
    /// inserted and gives `Ok(true)`, unless the insertion fails, whose error is
    /// returned with nothing changed.
    fn test_and_insert(&mut self, token: &Entry) -> (r: std::io::Result<bool>)
        ensures
            old(self).tokens().contains(token@) ==> r matches Ok(false),
            !old(self).admits(token@) ==> (r matches Ok(false)) && final(self).tokens() == old(
                self,
            ).tokens(),
            old(self).admits(token@) ==> {
                ||| (r matches Ok(true)) && final(self).tokens() == old(self).tokens().insert(token@)
                ||| r is Err && final(self).tokens() == old(self).tokens()
            },
            r matches Ok(true) ==> final(self).tokens() == old(self).tokens().insert(token@),
            !(r matches Ok(true)) ==> final(self).tokens() == old(self).tokens(),
    {
        let is_new = self.test(token);
        if is_new {
            match self.insert(token) {
                Ok(()) => {},
                Err(e) => return Err(e),
            }
        }
        Ok(is_new)
    }
}

} // verus!
