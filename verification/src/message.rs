use vstd::prelude::*;

use crate::json::{Json, JsonModel};

verus! {

/// Who sent an envelope, as far as the envelope says.
#[derive(Debug, PartialEq, Eq)]
pub struct MessageSender {
    pub uuid: Option<String>,
    pub role: Option<String>,
    pub addr: Option<String>,
}

/// Whom an envelope is for.
#[derive(Debug, PartialEq, Eq)]
pub struct MessageDest {
    pub broadcast: Option<bool>,
    pub role: Option<String>,
    pub addr: Option<String>,
    pub uuid: Option<String>,
    pub intra_device: Option<bool>,
}

/// One envelope of the message bus: a request while `resp` is absent, a
/// response once it is present.
///
/// `route`, `forward`, `body`, the two `addr` fields and `extra` are carried
/// along and never interpreted. `extra` holds the members of the wire object
/// that this version has no field for.
#[derive(Debug, PartialEq, Eq)]
pub struct Message {
    pub msg_id: String,
    pub parent_id: Option<String>,
    pub send_ack: bool,
    pub route: Vec<String>,
    pub forward: Option<bool>,
    pub sender: MessageSender,
    pub dest: MessageDest,
    pub action: Option<String>,
    pub args: Option<Vec<Json>>,
    pub resp: Option<Json>,
    pub body: Option<Json>,
    pub extra: Vec<(String, Json)>,
}

pub ghost struct SenderView {
    pub uuid: Option<Seq<char>>,
    pub role: Option<Seq<char>>,
    pub addr: Option<Seq<char>>,
}

pub ghost struct DestView {
    pub broadcast: Option<bool>,
    pub role: Option<Seq<char>>,
    pub addr: Option<Seq<char>>,
    pub uuid: Option<Seq<char>>,
    pub intra_device: Option<bool>,
}

pub ghost struct MessageView {
    pub msg_id: Seq<char>,
    pub parent_id: Option<Seq<char>>,
    pub send_ack: bool,
    pub route: Seq<Seq<char>>,
    pub forward: Option<bool>,
    pub sender: SenderView,
    pub dest: DestView,
    pub action: Option<Seq<char>>,
    pub args: Option<Seq<JsonModel>>,
    pub resp: Option<JsonModel>,
    pub body: Option<JsonModel>,
    pub extra: Seq<(Seq<char>, JsonModel)>,
}

impl DeepView for MessageSender {
    type V = SenderView;

    open spec fn deep_view(&self) -> SenderView {
        SenderView {
            uuid: self.uuid.deep_view(),
            role: self.role.deep_view(),
            addr: self.addr.deep_view(),
        }
    }
}

impl DeepView for MessageDest {
    type V = DestView;

    open spec fn deep_view(&self) -> DestView {
        DestView {
            broadcast: self.broadcast,
            role: self.role.deep_view(),
            addr: self.addr.deep_view(),
            uuid: self.uuid.deep_view(),
            intra_device: self.intra_device,
        }
    }
}

impl DeepView for Message {
    type V = MessageView;

    open spec fn deep_view(&self) -> MessageView {
        MessageView {
            msg_id: self.msg_id@,
            parent_id: self.parent_id.deep_view(),
            send_ack: self.send_ack,
            route: self.route.deep_view(),
            forward: self.forward,
            sender: self.sender.deep_view(),
            dest: self.dest.deep_view(),
            action: self.action.deep_view(),
            args: self.args.deep_view(),
            resp: self.resp.deep_view(),
            body: self.body.deep_view(),
            extra: self.extra.deep_view(),
        }
    }
}

impl SenderView {
    /// The destination that a reply to this sender carries.
    pub open spec fn as_dest(self) -> DestView {
        DestView {
            broadcast: None,
            role: self.role,
            addr: self.addr,
            uuid: self.uuid,
            intra_device: None,
        }
    }
}

impl MessageView {
    /// The envelope that names nobody and carries nothing.
    pub open spec fn empty() -> MessageView {
        MessageView {
            msg_id: Seq::empty(),
            parent_id: None,
            send_ack: false,
            route: Seq::empty(),
            forward: None,
            sender: SenderView { uuid: None, role: None, addr: None },
            dest: DestView { broadcast: None, role: None, addr: None, uuid: None, intra_device: None },
            action: None,
            args: None,
            resp: None,
            body: None,
            extra: Seq::empty(),
        }
    }

    /// Whether the envelope is a response: `resp` is present.
    pub open spec fn is_response(self) -> bool {
        self.resp is Some
    }

    /// The envelope as it enters the core on a device whose public address
    /// is `device`: the device joins the route, and stands in for a sender
    /// address that the envelope left out.
    pub open spec fn stamped(self, device: Seq<char>) -> MessageView {
        MessageView {
            route: self.route.push(device),
            sender: SenderView {
                addr: if self.sender.addr is None {
                    Some(device)
                } else {
                    self.sender.addr
                },
                ..self.sender
            },
            ..self
        }
    }

    /// The envelope with `fresh` as its id where it had none. An id that is
    /// there is never rewritten.
    pub open spec fn identified(self, fresh: Seq<char>) -> MessageView {
        if self.msg_id.len() == 0 {
            MessageView { msg_id: fresh, ..self }
        } else {
            self
        }
    }

    /// The copy that confirms a forward to its sender: the same envelope
    /// under the action `ack`.
    pub open spec fn ack(self) -> MessageView {
        MessageView { action: Some("ack"@), ..self }
    }

    /// The envelope on its way back to its sender: the destination is what
    /// the sender was.
    pub open spec fn returned(self) -> MessageView {
        MessageView { dest: self.sender.as_dest(), ..self }
    }

    /// The envelope with `resp` as its response.
    pub open spec fn answered(self, resp: JsonModel) -> MessageView {
        MessageView { resp: Some(resp), ..self }
    }

    /// The error envelope for this request: same id, action `error`, and
    /// `report` as the response.
    pub open spec fn failed(self, report: JsonModel) -> MessageView {
        MessageView { action: Some("error"@), resp: Some(report), ..self }
    }
}

/// What can be located: an optional uuid, address and role.
pub trait Locateable {
    /// The uuid, the address and the role, in this order.
    spec fn spec_location(&self) -> (Option<Seq<char>>, Option<Seq<char>>, Option<Seq<char>>);

    /// Whether the value asks to stay on this device.
    spec fn spec_device_only(&self) -> bool;

    fn location(&self) -> (r: (Option<String>, Option<String>, Option<String>))
        ensures
            r.deep_view() == self.spec_location(),
    ;

    fn device_only(&self) -> (r: bool)
        ensures
            r == self.spec_device_only(),
    ;
}

impl Locateable for MessageSender {
    open spec fn spec_location(&self) -> (Option<Seq<char>>, Option<Seq<char>>, Option<Seq<char>>) {
        (self.uuid.deep_view(), self.addr.deep_view(), self.role.deep_view())
    }

    /// A sender never asks to stay on the device.
    open spec fn spec_device_only(&self) -> bool {
        false
    }

    fn location(&self) -> (r: (Option<String>, Option<String>, Option<String>)) {
        (self.uuid.clone(), self.addr.clone(), self.role.clone())
    }

    fn device_only(&self) -> (r: bool) {
        false
    }
}

impl Locateable for MessageDest {
    open spec fn spec_location(&self) -> (Option<Seq<char>>, Option<Seq<char>>, Option<Seq<char>>) {
        (self.uuid.deep_view(), self.addr.deep_view(), self.role.deep_view())
    }

    /// A destination stays on the device where `intra_device` is `true`.
    open spec fn spec_device_only(&self) -> bool {
        self.intra_device == Some(true)
    }

    fn location(&self) -> (r: (Option<String>, Option<String>, Option<String>)) {
        (self.uuid.clone(), self.addr.clone(), self.role.clone())
    }

    fn device_only(&self) -> (r: bool) {
        match self.intra_device {
            Some(b) => b,
            None => false,
        }
    }
}

impl Clone for MessageSender {
    fn clone(&self) -> (r: MessageSender)
        ensures
            r.deep_view() == self.deep_view(),
    {
        MessageSender { uuid: self.uuid.clone(), role: self.role.clone(), addr: self.addr.clone() }
    }
}

impl Clone for MessageDest {
    fn clone(&self) -> (r: MessageDest)
        ensures
            r.deep_view() == self.deep_view(),
    {
        MessageDest {
            broadcast: self.broadcast,
            role: self.role.clone(),
            addr: self.addr.clone(),
            uuid: self.uuid.clone(),
            intra_device: self.intra_device,
        }
    }
}

/// A copy of `members` that stands for the same members.
pub fn clone_members(members: &Vec<(String, Json)>) -> (r: Vec<(String, Json)>)
    ensures
        r.deep_view() == members.deep_view(),
{
    let mut copy: Vec<(String, Json)> = Vec::new();
    let mut i: usize = 0;
    while i < members.len()
        invariant
            i <= members.len(),
            copy.len() == i,
            forall|k: int| 0 <= k < i ==> copy@[k].deep_view() == members@[k].deep_view(),
        decreases members.len() - i,
    {
        let key = members[i].0.clone();
        let value = members[i].1.clone();
        copy.push((key, value));
        i += 1;
    }
    assert(copy.deep_view() =~= members.deep_view());
    copy
}

/// A copy of `texts` with the same texts.
pub fn clone_strings(texts: &Vec<String>) -> (r: Vec<String>)
    ensures
        r.deep_view() == texts.deep_view(),
{
    let mut copy: Vec<String> = Vec::new();
    let mut i: usize = 0;
    while i < texts.len()
        invariant
            i <= texts.len(),
            copy.len() == i,
            forall|k: int| 0 <= k < i ==> copy@[k]@ == texts@[k]@,
        decreases texts.len() - i,
    {
        copy.push(texts[i].clone());
        i += 1;
    }
    assert(copy.deep_view() =~= texts.deep_view());
    copy
}

/// A copy of `items` that stands for the same values.
pub fn clone_values(items: &Vec<Json>) -> (r: Vec<Json>)
    ensures
        r.deep_view() == items.deep_view(),
{
    let mut copy: Vec<Json> = Vec::new();
    let mut i: usize = 0;
    while i < items.len()
        invariant
            i <= items.len(),
            copy.len() == i,
            forall|k: int| 0 <= k < i ==> copy@[k].deep_view() == items@[k].deep_view(),
        decreases items.len() - i,
    {
        copy.push(items[i].clone());
        i += 1;
    }
    assert(copy.deep_view() =~= items.deep_view());
    copy
}

impl Clone for Message {
    fn clone(&self) -> (r: Message)
        ensures
            r.deep_view() == self.deep_view(),
    {
        let args = match &self.args {
            Some(items) => Some(clone_values(items)),
            None => None,
        };
        Message {
            msg_id: self.msg_id.clone(),
            parent_id: self.parent_id.clone(),
            send_ack: self.send_ack,
            route: clone_strings(&self.route),
            forward: self.forward,
            sender: self.sender.clone(),
            dest: self.dest.clone(),
            action: self.action.clone(),
            args,
            resp: self.resp.clone(),
            body: self.body.clone(),
            extra: clone_members(&self.extra),
        }
    }
}

impl MessageSender {
    /// The destination of a reply to this sender: its role, address and
    /// uuid, no broadcast and no device restriction.
    pub fn into_dest(self) -> (r: MessageDest)
        ensures
            r.deep_view() == self.deep_view().as_dest(),
    {
        MessageDest {
            broadcast: None,
            role: self.role,
            addr: self.addr,
            uuid: self.uuid,
            intra_device: None,
        }
    }
}

impl Message {
    /// An envelope that names nobody and carries nothing.
    pub fn new() -> (r: Message)
        ensures
            r.deep_view() == MessageView::empty(),
    {
        let r = Message {
            msg_id: String::new(),
            parent_id: None,
            send_ack: false,
            route: Vec::new(),
            forward: None,
            sender: MessageSender { uuid: None, role: None, addr: None },
            dest: MessageDest {
                broadcast: None,
                role: None,
                addr: None,
                uuid: None,
                intra_device: None,
            },
            action: None,
            args: None,
            resp: None,
            body: None,
            extra: Vec::new(),
        };
        assert(r.route.deep_view() =~= Seq::empty());
        assert(r.extra.deep_view() =~= Seq::empty());
        r
    }

    /// Whether the envelope is a response.
    pub fn is_response(&self) -> (r: bool)
        ensures
            r == self.deep_view().is_response(),
    {
        self.resp.is_some()
    }

    /// Marks the envelope as seen by the device at `device`: the address
    /// joins the end of `route`, and becomes the sender's address where the
    /// envelope gave none.
    pub fn stamp(&mut self, device: &String)
        ensures
            final(self).deep_view() == old(self).deep_view().stamped(device@),
    {
        self.route.push(device.clone());
        if self.sender.addr.is_none() {
            self.sender.addr = Some(device.clone());
        }
        assert(final(self).route.deep_view() =~= old(self).route.deep_view().push(device@));
    }

    /// Gives the envelope the id `fresh` where it has none yet.
    pub fn identify(&mut self, fresh: String)
        ensures
            final(self).deep_view() == old(self).deep_view().identified(fresh@),
    {
        if self.msg_id.as_str().is_empty() {
            self.msg_id = fresh;
        }
    }

    /// Turns the envelope into the copy that confirms it to its sender.
    pub fn into_ack(self) -> (r: Message)
        ensures
            r.deep_view() == self.deep_view().ack(),
    {
        let mut r = self;
        r.action = Some("ack".to_owned());
        r
    }

    /// Turns the request into its error envelope, with `report` as the response.
    pub fn into_failed(self, report: Json) -> (r: Message)
        ensures
            r.deep_view() == self.deep_view().failed(report.deep_view()),
    {
        let mut r = self;
        r.action = Some("error".to_owned());
        r.resp = Some(report);
        r
    }

    /// Turns the request into its answer, with `resp` as the response.
    pub fn into_answered(self, resp: Json) -> (r: Message)
        ensures
            r.deep_view() == self.deep_view().answered(resp.deep_view()),
    {
        let mut r = self;
        r.resp = Some(resp);
        r
    }

    /// Turns the envelope round: its destination becomes what its sender was.
    pub fn into_returned(self) -> (r: Message)
        ensures
            r.deep_view() == self.deep_view().returned(),
    {
        let mut r = self;
        r.dest = r.sender.clone().into_dest();
        r
    }
}

} // verus!
