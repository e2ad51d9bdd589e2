use vstd::prelude::*;

verus! {

/// Where a vault's key material comes from.
#[derive(Clone, Copy, Debug, PartialEq, Eq, Structural)]
pub enum VaultOrigin {
    /// A fresh phrase is drawn from a secure entropy source.
    Generated,
    /// The given phrase is parsed and the keys derived from it.
    FromPhrase,
}

/// An empty phrase asks for a freshly generated one; any other is used as given.
pub fn vault_origin(phrase: &str) -> (r: VaultOrigin)
    ensures
        r == VaultOrigin::Generated <==> phrase@.len() == 0,
{
    if phrase.is_empty() {
        VaultOrigin::Generated
    } else {
        VaultOrigin::FromPhrase
    }
}

} // verus!
