use vstd::prelude::*;

use crate::ct::bytes::array_at;
use crate::filter_box::base::{Entry, FilterBox};
use crate::star_core::token::{be_u32_prefix, Token};

verus! {

/// The ways the filter refuses a token request.
#[derive(Debug, Clone, Copy, PartialEq, Eq, Structural)]
pub enum StarFilterErrorStatus {
    InvalidToken,
    InvalidRoute,
    DuplicatedToken,
    Internal,
}

/// The HTTP status that each refusal maps to.
pub open spec fn status_code_of(status: StarFilterErrorStatus) -> u16 {
    match status {
        StarFilterErrorStatus::InvalidToken => 401,
        StarFilterErrorStatus::InvalidRoute => 421,
        StarFilterErrorStatus::DuplicatedToken => 429,
        StarFilterErrorStatus::Internal => 500,
    }
}

impl StarFilterErrorStatus {
    pub fn status_code(&self) -> (r: u16)
        ensures
            r == status_code_of(*self),
    {
        match self {
            Self::InvalidToken => 401,
            Self::InvalidRoute => 421,
            Self::DuplicatedToken => 429,
            Self::Internal => 500,
        }
    }
}

/// What the filter decides of the token record `token_bytes` issued by an
/// enclave: the token (its first 32 bytes) and its route among `prefix_max`
/// routes, or `InvalidToken` when the record is shorter than a token.
pub open spec fn token_and_route_of(token_bytes: Seq<u8>, prefix_max: u32) -> Result<
    (Seq<u8>, int),
    StarFilterErrorStatus,
> {
    if token_bytes.len() < 32 {
        Err(StarFilterErrorStatus::InvalidToken)
    } else {
        Ok((token_bytes.subrange(0, 32), be_u32_prefix(token_bytes) % (prefix_max as int)))
    }
}

/// One decision of a duplicate filter whose remembered tokens go from
/// `before` to `after`: a token let through was not remembered and is
/// remembered now; a refusal changes nothing.
pub open spec fn dedup_step(before: Set<Seq<u8>>, token: Seq<u8>, admitted: bool, after: Set<Seq<u8>>) -> bool {
    if admitted {
        !before.contains(token) && after == before.insert(token)
    } else {
        after == before
    }
}

/// What the duplicate filter decides of `token` on a route that is `served`
/// here or not, with its filter going from `before` to `after`: a route not
/// served is `InvalidRoute`; a token the filter does not admit is
/// `DuplicatedToken`; an admitted token is let through and remembered, unless
/// the filter fails, which is `Internal`. A refusal changes nothing.
pub open spec fn duplication_outcome<T: FilterBox>(
    served: bool,
    before: T,
    token: Seq<u8>,
    r: Result<(), StarFilterErrorStatus>,
    after: T,
) -> bool {
    if !served {
        r == Err::<(), StarFilterErrorStatus>(StarFilterErrorStatus::InvalidRoute)
            && after.tokens() == before.tokens()
    } else if !before.admits(token) {
        r == Err::<(), StarFilterErrorStatus>(StarFilterErrorStatus::DuplicatedToken)
            && after.tokens() == before.tokens()
    } else {
        ||| r == Ok::<(), StarFilterErrorStatus>(()) && after.tokens() == before.tokens().insert(token)
        ||| r == Err::<(), StarFilterErrorStatus>(StarFilterErrorStatus::Internal)
            && after.tokens() == before.tokens()
    }
}

/// The answer on a served route, from what the filter's `test_and_insert`
/// returned: a new token passes, a known one is a duplicate, and a failing
/// filter is an internal error.
pub fn duplication_verdict(result: std::io::Result<bool>) -> (r: Result<(), StarFilterErrorStatus>)
    ensures
        match result {
            Ok(true) => r == Ok::<(), StarFilterErrorStatus>(()),
            Ok(false) => r == Err::<(), StarFilterErrorStatus>(
                StarFilterErrorStatus::DuplicatedToken,
            ),
            Err(_) => r == Err::<(), StarFilterErrorStatus>(StarFilterErrorStatus::Internal),
        },
{
    match result {
        Ok(true) => Ok(()),
        Ok(false) => Err(StarFilterErrorStatus::DuplicatedToken),
        Err(_) => Err(StarFilterErrorStatus::Internal),
    }
}

/// The duplicate-token filter in front of the proxied service: a token is let
/// through once, and only on one of the routes this server serves.
pub struct StarFilter<T: FilterBox, E> {
    pub filter: T,
    pub prefix_max: u32,
    pub prefixes: Vec<u32>,
    pub enclaves: E,
}

impl<T: FilterBox, E> StarFilter<T, E> {
    pub fn new(filter: T, prefixes: Vec<u32>, prefix_max: u32, enclaves: E) -> (r: Self)
        ensures
            r.filter == filter,
            r.prefixes == prefixes,
            r.prefix_max == prefix_max,
            r.enclaves == enclaves,
    {
        Self { filter, prefixes, prefix_max, enclaves }
    }

    /// The token and route of a token record returned by an enclave.
    pub fn token_and_route(&self, token_bytes: &[u8]) -> (r: Result<(Entry, u32), StarFilterErrorStatus>)
        requires
            self.prefix_max > 0,
        ensures
            match (r, token_and_route_of(token_bytes@, self.prefix_max)) {
                (Ok((t, route)), Ok((st, sroute))) => t@ == st && route as int == sroute,
                (Err(e), Err(se)) => e == se,
                _ => false,
            },
    {
        if token_bytes.len() < 32 {
            return Err(StarFilterErrorStatus::InvalidToken);
        }
        let token_entry: Entry = array_at(token_bytes, 0);
        let token = Token::new(token_entry);
        let route = token.route(self.prefix_max);
        Ok((token.token, route))
    }

    /// Lets a token through when its route is served here and the token was
    /// not seen before; remembers it.
    pub fn check_duplication(&mut self, token: &Entry, route: u32) -> (r: Result<(), StarFilterErrorStatus>)
        ensures
            final(self).prefixes == old(self).prefixes,
            final(self).prefix_max == old(self).prefix_max,
            duplication_outcome(
                old(self).prefixes@.contains(route),
                old(self).filter,
                token@,
                r,
                final(self).filter,
            ),
            old(self).prefixes@.contains(route) && old(self).filter.tokens().contains(token@) ==> r
                == Err::<(), StarFilterErrorStatus>(StarFilterErrorStatus::DuplicatedToken),
            r == Err::<(), StarFilterErrorStatus>(StarFilterErrorStatus::InvalidRoute) ==> !old(
                self,
            ).prefixes@.contains(route),
            r is Ok ==> !old(self).filter.tokens().contains(token@),
    {
        let mut found = false;
        let mut i: usize = 0;
        while i < self.prefixes.len()
            invariant
                0 <= i <= self.prefixes@.len(),
                found <==> exists|k: int| 0 <= k < i && self.prefixes@[k] == route,
            decreases self.prefixes@.len() - i,
        {
            if self.prefixes[i] == route {
                found = true;
            }
            i = i + 1;
        }
        if !found {
            proof {
                if self.prefixes@.contains(route) {
                    let k = choose|k: int| 0 <= k < self.prefixes@.len() && self.prefixes@[k] == route;
                    assert(self.prefixes@[k] == route);
                }
            }
            return Err(StarFilterErrorStatus::InvalidRoute);
        }
        assert(self.prefixes@.contains(route)) by {
            let k = choose|k: int| 0 <= k < i && self.prefixes@[k] == route;
            assert(self.prefixes@[k] == route);
        }
        let result = self.filter.test_and_insert(token);
        duplication_verdict(result)
    }

    /// The decision on a token record returned by an enclave: its token is let
    /// through once, on a route served here.
    pub fn filter_issued_token(&mut self, token_bytes: &[u8]) -> (r: Result<(), StarFilterErrorStatus>)
        requires
            old(self).prefix_max > 0,
        ensures
            final(self).prefixes == old(self).prefixes,
            final(self).prefix_max == old(self).prefix_max,
            token_bytes@.len() < 32 ==> r == Err::<(), StarFilterErrorStatus>(
                StarFilterErrorStatus::InvalidToken,
            ),
            r is Ok ==> token_bytes@.len() >= 32 && !old(self).filter.tokens().contains(
                token_bytes@.subrange(0, 32),
            ) && old(self).prefixes@.contains(
                (be_u32_prefix(token_bytes@) % (old(self).prefix_max as int)) as u32,
            ) && final(self).filter.tokens() == old(self).filter.tokens().insert(
                token_bytes@.subrange(0, 32),
            ),
            r is Err ==> final(self).filter.tokens() == old(self).filter.tokens(),
            token_bytes@.len() >= 32 && old(self).filter.tokens().contains(token_bytes@.subrange(0, 32))
                ==> r == Err::<(), StarFilterErrorStatus>(StarFilterErrorStatus::InvalidRoute) || r
                == Err::<(), StarFilterErrorStatus>(StarFilterErrorStatus::DuplicatedToken),
            token_bytes@.len() >= 32 && !old(self).prefixes@.contains(
                (be_u32_prefix(token_bytes@) % (old(self).prefix_max as int)) as u32,
            ) ==> r == Err::<(), StarFilterErrorStatus>(StarFilterErrorStatus::InvalidRoute),
            token_bytes@.len() >= 32 ==> duplication_outcome(
                old(self).prefixes@.contains(
                    (be_u32_prefix(token_bytes@) % (old(self).prefix_max as int)) as u32,
                ),
                old(self).filter,
                token_bytes@.subrange(0, 32),
                r,
                final(self).filter,
            ),
            token_bytes@.len() >= 32 ==> dedup_step(
                old(self).filter.tokens(),
                token_bytes@.subrange(0, 32),
                r is Ok,
                final(self).filter.tokens(),
            ),
    {
        let (token, route) = match self.token_and_route(token_bytes) {
            Ok(pair) => pair,
            Err(e) => return Err(e),
        };
        self.check_duplication(&token, route)
    }

    /// The decision on a token request once an enclave was asked to issue its
    /// token: no enclave to ask, or an enclave that failed, is an internal
    /// error; an issued token goes through `filter_issued_token`.
    pub fn filter_answer<X>(&mut self, answer: Option<Result<Vec<u8>, X>>) -> (r: Result<
        (),
        StarFilterErrorStatus,
    >)
        requires
            old(self).prefix_max > 0,
        ensures
            final(self).prefixes == old(self).prefixes,
            final(self).prefix_max == old(self).prefix_max,
            match answer {
                Some(Ok(token_bytes)) => {
                    &&& token_bytes@.len() < 32 ==> r == Err::<(), StarFilterErrorStatus>(
                        StarFilterErrorStatus::InvalidToken,
                    )
                    &&& r is Ok ==> token_bytes@.len() >= 32 && !old(self).filter.tokens().contains(
                        token_bytes@.subrange(0, 32),
                    ) && old(self).prefixes@.contains(
                        (be_u32_prefix(token_bytes@) % (old(self).prefix_max as int)) as u32,
                    ) && final(self).filter.tokens() == old(self).filter.tokens().insert(
                        token_bytes@.subrange(0, 32),
                    )
                    &&& r is Err ==> final(self).filter.tokens() == old(self).filter.tokens()
                    &&& token_bytes@.len() >= 32 && old(self).filter.tokens().contains(
                        token_bytes@.subrange(0, 32),
                    ) ==> r == Err::<(), StarFilterErrorStatus>(StarFilterErrorStatus::InvalidRoute)
                        || r == Err::<(), StarFilterErrorStatus>(
                        StarFilterErrorStatus::DuplicatedToken,
                    )
                    &&& token_bytes@.len() >= 32 ==> duplication_outcome(
                        old(self).prefixes@.contains(
                            (be_u32_prefix(token_bytes@) % (old(self).prefix_max as int)) as u32,
                        ),
                        old(self).filter,
                        token_bytes@.subrange(0, 32),
                        r,
                        final(self).filter,
                    )
                },
                _ => r == Err::<(), StarFilterErrorStatus>(StarFilterErrorStatus::Internal)
                    && final(self).filter.tokens() == old(self).filter.tokens(),
            },
    {
        let token_bytes = match answer {
            Some(Ok(token_bytes)) => token_bytes,
            _ => return Err(StarFilterErrorStatus::Internal),
        };
        self.filter_issued_token(token_bytes.as_slice())
    }
}

} // verus!
