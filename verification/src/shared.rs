//! What every part of the application shares: the transport handles and
//! the index of resolved avatars, and the plan by which avatars are
//! fetched.

use crate::media::{
    avatar_file_key, avatar_key, detect_extension, extension_of_content, file_name_for,
    file_name_with,
};
use crate::refresh::holds_text;
use crate::text::{lowercase, to_lowercase};
use crate::text_map::TextMap;
use vstd::prelude::*;

verus! {

/// The handles of the session and the avatars resolved so far.
///
/// `C` is the transport client, `H` the handler of one session on it.
pub struct SharedSession<C, H> {
    pub client: Option<C>,
    pub handler: Option<H>,
    /// Avatar identifier to local address. Entries are added, never taken
    /// away.
    pub avatars: TextMap,
}

/// The error text for a session without stored credentials.
pub open spec fn not_logged_in() -> Seq<char> {
    "not logged in"@
}

impl<C, H> SharedSession<C, H> {
    /// A session without handles and without avatars.
    pub fn new() -> (session: Self)
        ensures
            session.client is None,
            session.handler is None,
            session.avatars@ == Map::<Seq<char>, Seq<char>>::empty(),
    {
        SharedSession { client: None, handler: None, avatars: TextMap::new() }
    }

    /// The client, if the user is logged in.
    pub fn get_client(&self) -> (client: Option<&C>)
        ensures
            client == match self.client {
                Some(c) => Some(&c),
                None => None,
            },
    {
        self.client.as_ref()
    }

    /// Keeps the client of a fresh login.
    pub fn set_client(&mut self, client: C)
        ensures
            final(self).client == Some(client),
            final(self).handler == old(self).handler,
            final(self).avatars == old(self).avatars,
    {
        self.client = Some(client);
    }

    /// Forgets client and handler: after a logout or a rejected login.
    pub fn clear_client(&mut self)
        ensures
            final(self).client is None,
            final(self).handler is None,
            final(self).avatars == old(self).avatars,
    {
        self.client = None;
        self.handler = None;
    }

    /// Makes sure there is a client. One that is there is kept, and
    /// `stored` is not looked at. Otherwise `stored` is what reading the
    /// credential store gave: a client made from the credentials, nothing,
    /// or the text of an error.
    pub fn ensure_client(&mut self, stored: Result<Option<C>, String>) -> (ready: Result<(), String>)
        ensures
            final(self).handler == old(self).handler,
            final(self).avatars == old(self).avatars,
            old(self).client is Some ==> ready is Ok && final(self).client == old(self).client,
            old(self).client is None ==> match stored {
                Ok(Some(client)) => ready is Ok && final(self).client == Some(client),
                Ok(None) => ready is Err && ready->Err_0@ == not_logged_in() && final(self).client is None,
                Err(error) => ready == Err::<(), String>(error) && final(self).client is None,
            },
    {
        if self.client.is_some() {
            return Ok(());
        }
        match stored {
            Ok(Some(client)) => {
                self.client = Some(client);
                Ok(())
            },
            Ok(None) => Err("not logged in".to_owned()),
            Err(error) => Err(error),
        }
    }

    /// The handler of the session, if one was made.
    pub fn get_handler(&self) -> (handler: Option<&H>)
        ensures
            handler == match self.handler {
                Some(h) => Some(&h),
                None => None,
            },
    {
        self.handler.as_ref()
    }

    /// Keeps `fresh` as the handler of the session, unless there is one
    /// already. Returns whether `fresh` was kept.
    pub fn make_handler(&mut self, fresh: H) -> (kept: bool)
        ensures
            kept == (old(self).handler is None),
            final(self).handler == if kept {
                Some(fresh)
            } else {
                old(self).handler
            },
            final(self).client == old(self).client,
            final(self).avatars == old(self).avatars,
    {
        if self.handler.is_some() {
            return false;
        }
        self.handler = Some(fresh);
        true
    }

    /// Records the local address of a resolved avatar. A later address for
    /// the same identifier takes the place of the earlier one.
    pub fn record_avatar(&mut self, identifier: &str, url: &str)
        ensures
            final(self).avatars@ == old(self).avatars@.insert(identifier@, url@),
            final(self).client == old(self).client,
            final(self).handler == old(self).handler,
    {
        self.avatars.insert(identifier.to_owned(), url.to_owned());
    }
}

/// The session identifier under which a handler talks: that of the
/// credentials, in lower case.
pub fn handler_session_id(credential_session_id: &str) -> (id: String)
    ensures
        id@ == lowercase(credential_session_id@),
{
    to_lowercase(credential_session_id)
}

/// The kind of message under which thumbnails are asked for.
#[derive(Clone, Copy, Debug, PartialEq, Eq, Structural)]
pub enum RequestKind {
    Annotation,
    Message,
    Unknown,
}

/// One way of asking for thumbnails.
#[derive(Clone, Copy, Debug, PartialEq, Eq, Structural)]
pub struct AvatarAttempt {
    pub encrypted: bool,
    pub kind: RequestKind,
}

/// The ways of asking for thumbnails, in the order in which they are tried.
pub open spec fn attempts() -> Seq<AvatarAttempt> {
    seq![
        AvatarAttempt { encrypted: true, kind: RequestKind::Annotation },
        AvatarAttempt { encrypted: true, kind: RequestKind::Message },
        AvatarAttempt { encrypted: false, kind: RequestKind::Annotation },
        AvatarAttempt { encrypted: false, kind: RequestKind::Message },
        AvatarAttempt { encrypted: false, kind: RequestKind::Unknown },
    ]
}

/// Seconds after which an unencrypted request for thumbnails is given up.
pub const UNENCRYPTED_TIMEOUT_SECONDS: u64 = 5;

/// The next way to try after `made` attempts, the last of which brought
/// thumbnails or not. Thumbnails end the attempts; so does the end of the
/// list.
pub open spec fn next_attempt(made: nat, last_brought_thumbnails: bool) -> Option<AvatarAttempt> {
    if last_brought_thumbnails || made >= attempts().len() {
        None
    } else {
        Some(attempts()[made as int])
    }
}

/// Decides how thumbnails are asked for next, if at all.
pub fn avatar_fetch_step(made: usize, last_brought_thumbnails: bool) -> (next: Option<AvatarAttempt>)
    ensures
        next == next_attempt(made as nat, last_brought_thumbnails),
{
    if last_brought_thumbnails {
        None
    } else if made == 0 {
        Some(AvatarAttempt { encrypted: true, kind: RequestKind::Annotation })
    } else if made == 1 {
        Some(AvatarAttempt { encrypted: true, kind: RequestKind::Message })
    } else if made == 2 {
        Some(AvatarAttempt { encrypted: false, kind: RequestKind::Annotation })
    } else if made == 3 {
        Some(AvatarAttempt { encrypted: false, kind: RequestKind::Message })
    } else if made == 4 {
        Some(AvatarAttempt { encrypted: false, kind: RequestKind::Unknown })
    } else {
        None
    }
}

/// The addresses already known for `identifiers`.
pub open spec fn resolved_among(
    identifiers: Seq<Seq<char>>,
    avatars: Map<Seq<char>, Seq<char>>,
) -> Map<Seq<char>, Seq<char>>
    decreases identifiers.len(),
{
    if identifiers.len() == 0 {
        Map::empty()
    } else {
        let rest = resolved_among(identifiers.drop_last(), avatars);
        let id = identifiers.last();
        if avatars.dom().contains(id) {
            rest.insert(id, avatars[id])
        } else {
            rest
        }
    }
}

/// The identifiers that are not resolved, each once, in their order.
pub open spec fn unresolved_among(
    identifiers: Seq<Seq<char>>,
    avatars: Map<Seq<char>, Seq<char>>,
) -> Seq<Seq<char>>
    decreases identifiers.len(),
{
    if identifiers.len() == 0 {
        Seq::empty()
    } else {
        let rest = unresolved_among(identifiers.drop_last(), avatars);
        let id = identifiers.last();
        if !avatars.dom().contains(id) && !rest.contains(id) {
            rest.push(id)
        } else {
            rest
        }
    }
}

/// Splits the identifiers into those whose avatar is resolved, with their
/// addresses, and those still to fetch.
pub fn split_resolved(avatars: &TextMap, identifiers: &Vec<String>) -> (found: (TextMap, Vec<String>))
    ensures
        found.0@ == resolved_among(identifiers.deep_view(), avatars@),
        found.1.deep_view() == unresolved_among(identifiers.deep_view(), avatars@),
{
    let ghost all = identifiers.deep_view();
    let mut results = TextMap::new();
    let mut to_fetch: Vec<String> = Vec::new();
    let mut i: usize = 0;
    assert(to_fetch.deep_view() =~= unresolved_among(all.take(0), avatars@));
    while i < identifiers.len()
        invariant
            i <= identifiers.len(),
            all == identifiers.deep_view(),
            results@ == resolved_among(all.take(i as int), avatars@),
            to_fetch.deep_view() == unresolved_among(all.take(i as int), avatars@),
        decreases identifiers.len() - i,
    {
        proof {
            assert(all.take(i as int + 1).drop_last() =~= all.take(i as int));
            assert(all.take(i as int + 1).last() == all[i as int]);
        }
        match avatars.get(identifiers[i].as_str()) {
            Some(url) => {
                results.insert(identifiers[i].clone(), url.clone());
            },
            None => {
                if !holds_text(&to_fetch, identifiers[i].as_str()) {
                    let ghost prior = to_fetch.deep_view();
                    to_fetch.push(identifiers[i].clone());
                    assert(to_fetch.deep_view() =~= prior.push(all[i as int]));
                }
            },
        }
        i += 1;
    }
    assert(all.take(identifiers.len() as int) =~= all);
    (results, to_fetch)
}

/// The name of the file under which an avatar image is kept; none for an
/// image without bytes.
pub open spec fn avatar_file_name_of(identifier: Seq<char>, image: Seq<u8>) -> Option<Seq<char>> {
    if image.len() == 0 {
        None
    } else {
        Some(file_name_with(avatar_key(identifier), extension_of_content(image)))
    }
}

/// The name of the file under which an avatar image is kept.
pub fn avatar_file_name(identifier: &str, image: &[u8]) -> (name: Option<String>)
    ensures
        match name {
            Some(n) => avatar_file_name_of(identifier@, image@) == Some(n@),
            None => avatar_file_name_of(identifier@, image@) is None,
        },
{
    if image.len() == 0 {
        return None;
    }
    let key = avatar_file_key(identifier);
    Some(file_name_for(key.as_str(), detect_extension(image)))
}

} // verus!
