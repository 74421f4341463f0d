//! Request-facing data types and the decisions the gateway makes before it
//! touches the network: building a notification from an identified comment
//! submission, and counting requests.

use vstd::prelude::*;
use crate::repeater::Delivery;
use crate::repeater::RepeaterActor;
use crate::repeater::RepeaterUpdate;
use crate::repeater::delivery_count;

verus! {

/// Credentials posted to the signup and signin endpoints.
pub struct UserForm {
    pub email: String,
    pub password: String,
}

/// Identifier returned by the user service on a successful signin.
pub struct UserId {
    pub id: String,
}

/// Body of a comment submission.
pub struct AddComment {
    pub text: String,
}

/// One notification: who commented and what they wrote. Copied once per
/// fan-out target, so each delivery is independent.
#[derive(Debug)]
pub struct NewComment {
    pub uid: String,
    pub text: String,
}

impl Clone for NewComment {
    fn clone(&self) -> (r: Self)
        ensures
            r == *self,
    {
        NewComment { uid: self.uid.clone(), text: self.text.clone() }
    }
}

/// Why the gateway rejected a request or a proxied response.
#[derive(Debug)]
pub enum GatewayError {
    /// The request carried no identity: the caller has to sign in first.
    NotSignedIn,
    /// A downstream service answered outside the success class.
    MicroserviceError,
}

/// The decision on a proxied response: its body is taken exactly when the
/// status code is in the success class, and any other status becomes the
/// one downstream error.
pub fn classify_response(status: u16) -> (r: Result<(), GatewayError>)
    ensures
        r is Ok <==> 200 <= status < 300,
        r is Err ==> (r matches Err(e) && e is MicroserviceError),
{
    if 200 <= status && status < 300 {
        Ok(())
    } else {
        Err(GatewayError::MicroserviceError)
    }
}

/// The decision at the head of a comment submission: an identified caller
/// yields a notification with the caller's id and the submitted text; an
/// anonymous caller is rejected.
pub fn comment_event(identity: Option<String>, form: AddComment) -> (r: Result<
    NewComment,
    GatewayError,
>)
    ensures
        match r {
            Ok(c) => identity matches Some(uid) && c.uid == uid && c.text == form.text,
            Err(e) => identity is None && e is NotSignedIn,
        },
{
    match identity {
        Some(uid) => Ok(NewComment { uid, text: form.text }),
        None => Err(GatewayError::NotSignedIn),
    }
}

/// Submit one event for broadcast: wrap the notification and plan its
/// fan-out — exactly one copy for every handle subscribed at this instant.
/// The host performs the planned deliveries best-effort; a failed delivery
/// is neither retried nor reported.
pub fn submit_event(hub: &RepeaterActor, uid: String, text: String) -> (out: Vec<Delivery>)
    requires
        hub.wf(),
    ensures
        out@.len() == hub.handle_seq().len(),
        forall|i: int|
            0 <= i < out@.len() ==> out@[i].listener == hub.handle_seq()[i] && out@[i].update.0.uid
                == uid && out@[i].update.0.text == text,
        forall|h: u64|
            #[trigger] delivery_count(out@, h) == if hub@.contains(h) {
                1nat
            } else {
                0nat
            },
{
    let update = RepeaterUpdate(NewComment { uid, text });
    hub.handle_update(&update)
}

/// Counts every request the gateway sees.
pub struct Counter {
    pub count: i64,
}

impl Counter {
    pub fn new() -> (r: Self)
        ensures
            r.count == 0,
    {
        Counter { count: 0 }
    }

    /// One more request has arrived.
    pub fn start(&mut self)
        requires
            old(self).count < i64::MAX,
        ensures
            final(self).count == old(self).count + 1,
    {
        self.count = self.count + 1;
    }

    pub fn value(&self) -> (r: i64)
        ensures
            r == self.count,
    {
        self.count
    }
}

} // verus!
