use std::sync::Arc;
use vstd::prelude::*;

use crate::artifact::{decimal, to_decimal, Artifact, ArtifactView};
use crate::store::{opt_artifact_view, view_strings};

verus! {

/// The slot that holds the one active dev-server process, if any, with the token it was
/// registered under. Whatever leaves the slot is handed back to the caller, who
/// terminates it.
#[derive(Debug)]
pub struct DevServerSlot<P> {
    pub active: Option<(u64, P)>,
    /// The token that the next registration receives.
    pub issued: u64,
}

impl<P> DevServerSlot<P> {
    /// An empty slot.
    pub fn new() -> (r: DevServerSlot<P>)
        ensures
            r.active.is_none(),
            r.issued == 0,
    {
        DevServerSlot { active: None, issued: 0 }
    }

    /// True when a process is registered.
    pub fn is_running(&self) -> (r: bool)
        ensures
            r == self.active.is_some(),
    {
        self.active.is_some()
    }
}

/// The token issued after `t`.
pub open spec fn next_token(t: u64) -> u64 {
    if t < u64::MAX {
        (t + 1) as u64
    } else {
        0
    }
}

/// The process a slot holds, without its token.
pub open spec fn held<P>(slot: DevServerSlot<P>) -> Option<P> {
    match slot.active {
        Some((_, p)) => Some(p),
        None => None,
    }
}

/// The slot after registering `process`, the token it got, and the process handed back to
/// be killed.
pub open spec fn after_set<P>(slot: DevServerSlot<P>, process: P) -> (DevServerSlot<P>, u64, Option<P>) {
    (
        DevServerSlot { active: Some((slot.issued, process)), issued: next_token(slot.issued) },
        slot.issued,
        held(slot),
    )
}

/// The slot after the owner of `token` lets go, and the process handed back to be killed:
/// only the registration that still holds the slot empties it.
pub open spec fn after_release<P>(slot: DevServerSlot<P>, token: u64) -> (DevServerSlot<P>, Option<P>) {
    match slot.active {
        Some((t, p)) => if t == token {
            (DevServerSlot { active: None, issued: slot.issued }, Some(p))
        } else {
            (slot, None)
        },
        None => (slot, None),
    }
}

/// Starting twice leaves one process registered, the latest, and hands the first back to
/// be killed; the first owner letting go afterwards leaves the second running.
pub proof fn law_single_instance<P>(slot: DevServerSlot<P>, first: P, second: P)
    ensures
        ({
            let (s1, t1, k1) = after_set(slot, first);
            let (s2, t2, k2) = after_set(s1, second);
            &&& k1 == held(slot)
            &&& held(s2) == Some(second)
            &&& k2 == Some(first)
            &&& t1 != t2
            &&& after_release(s2, t1) == (s2, Option::<P>::None)
            &&& after_release(s2, t2).0.active.is_none()
            &&& after_release(s2, t2).1 == Some(second)
        }),
{
}

/// Registers `process` as the active one. Returns its token, and the process it replaces,
/// if any, to be killed.
pub fn set_dev_server<P>(slot: &mut DevServerSlot<P>, process: P) -> (r: (u64, Option<P>))
    ensures
        (*final(slot), r.0, r.1) == after_set(*old(slot), process),
{
    let previous = match slot.active.take() {
        Some((_, p)) => Some(p),
        None => None,
    };
    let token = slot.issued;
    slot.active = Some((token, process));
    slot.issued = if token < u64::MAX {
        token + 1
    } else {
        0
    };
    (token, previous)
}

/// Lets go of the registration made under `token`: the slot is emptied only if that
/// registration still holds it, and what it held is returned to be killed.
pub fn unset_if_current<P>(slot: &mut DevServerSlot<P>, token: u64) -> (r: Option<P>)
    ensures
        (*final(slot), r) == after_release(*old(slot), token),
{
    let current = match &slot.active {
        Some((t, _)) => *t == token,
        None => false,
    };
    if current {
        match slot.active.take() {
            Some((_, p)) => Some(p),
            None => None,
        }
    } else {
        None
    }
}

/// Empties the slot; the process it held, if any, is returned to be killed.
pub fn unset_dev_server<P>(slot: &mut DevServerSlot<P>) -> (r: Option<P>)
    ensures
        final(slot).active.is_none(),
        final(slot).issued == old(slot).issued,
        r == held(*old(slot)),
{
    match slot.active.take() {
        Some((_, p)) => Some(p),
        None => None,
    }
}

/// Stops the dev server: the slot is emptied, and what it held is returned to be killed.
/// Stopping an empty slot does nothing.
pub fn stop_dev_server<P>(slot: &mut DevServerSlot<P>) -> (r: Option<P>)
    ensures
        final(slot).active.is_none(),
        final(slot).issued == old(slot).issued,
        r == held(*old(slot)),
{
    unset_dev_server(slot)
}

/// The arguments given to `npx` to start the bundler's dev server on `host:port`.
pub open spec fn dev_args(host: Seq<char>, port: u16) -> Seq<Seq<char>> {
    seq![
        "vite"@,
        "--host"@,
        host,
        "--port"@,
        decimal(port as nat),
        "--strictPort"@,
        "--clearScreen"@,
        "false"@,
    ]
}

/// The command-line arguments that start the dev server bound to `host:port`.
pub fn dev_server_args(host: &str, port: u16) -> (r: Vec<String>)
    ensures
        view_strings(r@) == dev_args(host@, port),
{
    let mut v: Vec<String> = Vec::new();
    v.push(String::from_str("vite"));
    v.push(String::from_str("--host"));
    v.push(String::from_str(host));
    v.push(String::from_str("--port"));
    v.push(to_decimal(port as u64));
    v.push(String::from_str("--strictPort"));
    v.push(String::from_str("--clearScreen"));
    v.push(String::from_str("false"));
    assert(view_strings(v@) =~= dev_args(host@, port));
    v
}

/// The address of `path` on the dev server.
pub open spec fn dev_url(host: Seq<char>, port: u16, path: Seq<char>) -> Seq<char> {
    "http://"@ + host + ":"@ + decimal(port as nat) + "/"@ + path
}

/// The URL that fetches `path` from the dev server at `host:port`.
pub fn dev_server_url(host: &str, port: u16, path: &str) -> (r: String)
    ensures
        r@ == dev_url(host@, port, path@),
{
    let mut u = String::from_str("http://");
    u.append(host);
    u.append(":");
    let p = to_decimal(port as u64);
    u.append(p.as_str());
    u.append("/");
    u.append(path);
    u
}

/// Ways in which the dev server's answer breaks its contract.
#[derive(Debug, Clone, Copy, PartialEq, Eq)]
pub enum DevResponseError {
    MissingContentType,
    MissingContentLength,
    MissingETag,
}

/// What the dev server's answer to a fetch means: `None` for a 404, an error where a header
/// that every found file carries is missing, else the artifact, its ETag as validator and
/// no modification time.
pub open spec fn dev_outcome(
    status: u16,
    content_type: Option<Seq<char>>,
    content_length: Option<u64>,
    etag: Option<Seq<char>>,
    bytes: Seq<u8>,
) -> Result<Option<ArtifactView>, DevResponseError> {
    if status == 404 {
        Ok(None)
    } else if content_type.is_none() {
        Err(DevResponseError::MissingContentType)
    } else if content_length.is_none() {
        Err(DevResponseError::MissingContentLength)
    } else if etag.is_none() {
        Err(DevResponseError::MissingETag)
    } else {
        Ok(
            Some(
                ArtifactView {
                    content_type: content_type.unwrap(),
                    content_length: content_length.unwrap(),
                    content_hash: etag,
                    last_modified: None,
                    bytes,
                },
            ),
        )
    }
}

pub open spec fn result_view(r: Result<Option<Artifact>, DevResponseError>) -> Result<
    Option<ArtifactView>,
    DevResponseError,
> {
    match r {
        Ok(o) => Ok(opt_artifact_view(o)),
        Err(e) => Err(e),
    }
}

/// Turns the dev server's answer to a fetch into a lookup result.
pub fn artifact_from_dev_response(
    status: u16,
    content_type: Option<String>,
    content_length: Option<u64>,
    etag: Option<String>,
    bytes: Vec<u8>,
) -> (r: Result<Option<Artifact>, DevResponseError>)
    ensures
        result_view(r) == dev_outcome(
            status,
            crate::artifact::opt_view(content_type),
            content_length,
            crate::artifact::opt_view(etag),
            bytes@,
        ),
{
    if status == 404 {
        return Ok(None);
    }
    let content_type = match content_type {
        Some(t) => t,
        None => {
            return Err(DevResponseError::MissingContentType);
        },
    };
    let content_length = match content_length {
        Some(n) => n,
        None => {
            return Err(DevResponseError::MissingContentLength);
        },
    };
    let etag = match etag {
        Some(e) => e,
        None => {
            return Err(DevResponseError::MissingETag);
        },
    };
    Ok(
        Some(
            Artifact {
                content_type,
                content_length,
                content_hash: Some(etag),
                last_modified: None,
                bytes: Arc::new(bytes),
            },
        ),
    )
}

} // verus!
