//! What a client says: exactly one of these, or nothing this side knows.
use vstd::prelude::*;
use crate::signaling::codec::{
    bytes_entry, encoded, lemma_reads_back_at, lemma_field_within, lemma_merge_short,
    merge_part, part_of, put_message, Message, Readable,
};
use crate::signaling::messages::{
    CreateRoom, CreateRoomView, JoinRoom, JoinRoomView, KickPlayer, KickPlayerView, Leave,
    LeaveView, SetReady, SetReadyView, Signal, SignalView, Start, StartView,
};
use crate::signaling::wire::{fields_bytes, Field, FieldView};

verus! {

#[derive(Debug, Clone, PartialEq, Eq)]
pub enum Msg {
    CreateRoom(CreateRoom),
    JoinRoom(JoinRoom),
    SetReady(SetReady),
    Start(Start),
    Signal(Signal),
    Leave(Leave),
    KickPlayer(KickPlayer),
}

/// What a [`Msg`] says.
#[verifier::ext_equal]
pub enum MsgView {
    CreateRoom(CreateRoomView),
    JoinRoom(JoinRoomView),
    SetReady(SetReadyView),
    Start(StartView),
    Signal(SignalView),
    Leave(LeaveView),
    KickPlayer(KickPlayerView),
}

impl View for Msg {
    type V = MsgView;

    open spec fn view(&self) -> MsgView {
        match *self {
            Msg::CreateRoom(m) => MsgView::CreateRoom(m@),
            Msg::JoinRoom(m) => MsgView::JoinRoom(m@),
            Msg::SetReady(m) => MsgView::SetReady(m@),
            Msg::Start(m) => MsgView::Start(m@),
            Msg::Signal(m) => MsgView::Signal(m@),
            Msg::Leave(m) => MsgView::Leave(m@),
            Msg::KickPlayer(m) => MsgView::KickPlayer(m@),
        }
    }
}

/// The field a message is carried in.
pub open spec fn msg_field(m: MsgView) -> FieldView {
    match m {
        MsgView::CreateRoom(m) => bytes_entry(1, encoded::<CreateRoom>(m)),
        MsgView::JoinRoom(m) => bytes_entry(2, encoded::<JoinRoom>(m)),
        MsgView::SetReady(m) => bytes_entry(3, encoded::<SetReady>(m)),
        MsgView::Start(m) => bytes_entry(4, encoded::<Start>(m)),
        MsgView::Signal(m) => bytes_entry(5, encoded::<Signal>(m)),
        MsgView::Leave(m) => bytes_entry(6, encoded::<Leave>(m)),
        MsgView::KickPlayer(m) => bytes_entry(7, encoded::<KickPlayer>(m)),
    }
}

/// One message from a client.
#[derive(Debug, Clone, PartialEq, Eq)]
pub struct ClientMessage {
    pub msg: Option<Msg>,
}

/// What a [`ClientMessage`] says.
#[verifier::ext_equal]
pub struct ClientMessageView {
    pub msg: Option<MsgView>,
}

impl View for ClientMessage {
    type V = ClientMessageView;

    open spec fn view(&self) -> ClientMessageView {
        ClientMessageView {
            msg: match self.msg {
                Some(m) => Some(m@),
                None => None,
            },
        }
    }
}

impl Message for ClientMessage {
    open spec fn blank() -> ClientMessageView {
        ClientMessageView { msg: None }
    }

    open spec fn fields(v: ClientMessageView) -> Seq<FieldView> {
        match v.msg {
            None => Seq::<FieldView>::empty(),
            Some(m) => seq![msg_field(m)],
        }
    }

    open spec fn merged(v: ClientMessageView, f: FieldView, depth: nat) -> Option<ClientMessageView> {
        if f.tag == 1 {
            let base = match v.msg {
                Some(MsgView::CreateRoom(m)) => m,
                _ => CreateRoom::blank(),
            };
            match part_of::<CreateRoom>(base, f, depth) {
                Some(m) => Some(ClientMessageView { msg: Some(MsgView::CreateRoom(m)) }),
                None => None,
            }
        } else if f.tag == 2 {
            let base = match v.msg {
                Some(MsgView::JoinRoom(m)) => m,
                _ => JoinRoom::blank(),
            };
            match part_of::<JoinRoom>(base, f, depth) {
                Some(m) => Some(ClientMessageView { msg: Some(MsgView::JoinRoom(m)) }),
                None => None,
            }
        } else if f.tag == 3 {
            let base = match v.msg {
                Some(MsgView::SetReady(m)) => m,
                _ => SetReady::blank(),
            };
            match part_of::<SetReady>(base, f, depth) {
                Some(m) => Some(ClientMessageView { msg: Some(MsgView::SetReady(m)) }),
                None => None,
            }
        } else if f.tag == 4 {
            let base = match v.msg {
                Some(MsgView::Start(m)) => m,
                _ => Start::blank(),
            };
            match part_of::<Start>(base, f, depth) {
                Some(m) => Some(ClientMessageView { msg: Some(MsgView::Start(m)) }),
                None => None,
            }
        } else if f.tag == 5 {
            let base = match v.msg {
                Some(MsgView::Signal(m)) => m,
                _ => Signal::blank(),
            };
            match part_of::<Signal>(base, f, depth) {
                Some(m) => Some(ClientMessageView { msg: Some(MsgView::Signal(m)) }),
                None => None,
            }
        } else if f.tag == 6 {
            let base = match v.msg {
                Some(MsgView::Leave(m)) => m,
                _ => Leave::blank(),
            };
            match part_of::<Leave>(base, f, depth) {
                Some(m) => Some(ClientMessageView { msg: Some(MsgView::Leave(m)) }),
                None => None,
            }
        } else if f.tag == 7 {
            let base = match v.msg {
                Some(MsgView::KickPlayer(m)) => m,
                _ => KickPlayer::blank(),
            };
            match part_of::<KickPlayer>(base, f, depth) {
                Some(m) => Some(ClientMessageView { msg: Some(MsgView::KickPlayer(m)) }),
                None => None,
            }
        } else {
            Some(v)
        }
    }

    fn new_blank() -> (m: ClientMessage) {
        ClientMessage { msg: None }
    }

    fn put_fields(&self, out: &mut Vec<u8>) {
        match &self.msg {
            None => {
                assert(out@ =~= old(out)@ + fields_bytes(ClientMessage::fields(self@)));
            },
            Some(m) => match m {
                Msg::CreateRoom(m) => {
                    put_message(out, 1, m);
                },
                Msg::JoinRoom(m) => {
                    put_message(out, 2, m);
                },
                Msg::SetReady(m) => {
                    put_message(out, 3, m);
                },
                Msg::Start(m) => {
                    put_message(out, 4, m);
                },
                Msg::Signal(m) => {
                    put_message(out, 5, m);
                },
                Msg::Leave(m) => {
                    put_message(out, 6, m);
                },
                Msg::KickPlayer(m) => {
                    put_message(out, 7, m);
                },
            },
        }
    }

    fn merge(&mut self, f: Field, depth: u32) -> (ok: bool) {
        if f.tag == 1 {
            let base = match self.msg.take() {
                Some(Msg::CreateRoom(m)) => m,
                _ => CreateRoom::new_blank(),
            };
            match merge_part(base, f, depth) {
                Some(m) => {
                    self.msg = Some(Msg::CreateRoom(m));
                    true
                },
                None => false,
            }
        } else if f.tag == 2 {
            let base = match self.msg.take() {
                Some(Msg::JoinRoom(m)) => m,
                _ => JoinRoom::new_blank(),
            };
            match merge_part(base, f, depth) {
                Some(m) => {
                    self.msg = Some(Msg::JoinRoom(m));
                    true
                },
                None => false,
            }
        } else if f.tag == 3 {
            let base = match self.msg.take() {
                Some(Msg::SetReady(m)) => m,
                _ => SetReady::new_blank(),
            };
            match merge_part(base, f, depth) {
                Some(m) => {
                    self.msg = Some(Msg::SetReady(m));
                    true
                },
                None => false,
            }
        } else if f.tag == 4 {
            let base = match self.msg.take() {
                Some(Msg::Start(m)) => m,
                _ => Start::new_blank(),
            };
            match merge_part(base, f, depth) {
                Some(m) => {
                    self.msg = Some(Msg::Start(m));
                    true
                },
                None => false,
            }
        } else if f.tag == 5 {
            let base = match self.msg.take() {
                Some(Msg::Signal(m)) => m,
                _ => Signal::new_blank(),
            };
            match merge_part(base, f, depth) {
                Some(m) => {
                    self.msg = Some(Msg::Signal(m));
                    true
                },
                None => false,
            }
        } else if f.tag == 6 {
            let base = match self.msg.take() {
                Some(Msg::Leave(m)) => m,
                _ => Leave::new_blank(),
            };
            match merge_part(base, f, depth) {
                Some(m) => {
                    self.msg = Some(Msg::Leave(m));
                    true
                },
                None => false,
            }
        } else if f.tag == 7 {
            let base = match self.msg.take() {
                Some(Msg::KickPlayer(m)) => m,
                _ => KickPlayer::new_blank(),
            };
            match merge_part(base, f, depth) {
                Some(m) => {
                    self.msg = Some(Msg::KickPlayer(m));
                    true
                },
                None => false,
            }
        } else {
            true
        }
    }
}

impl Readable for ClientMessage {
    open spec fn height() -> nat {
        1
    }

    proof fn reads_back(v: ClientMessageView, depth: nat) {
        let blank = ClientMessage::blank();
        let all = ClientMessage::fields(v);
        lemma_merge_short::<ClientMessage>(blank, all, depth);
        if v.msg is Some {
            lemma_field_within(all, 0);
            match v.msg->Some_0 {
                MsgView::CreateRoom(m) => {
                    lemma_reads_back_at::<CreateRoom>(m, depth + 1);
                },
                MsgView::JoinRoom(m) => {
                    lemma_reads_back_at::<JoinRoom>(m, depth + 1);
                },
                MsgView::SetReady(m) => {
                    lemma_reads_back_at::<SetReady>(m, depth + 1);
                },
                MsgView::Start(m) => {
                    lemma_reads_back_at::<Start>(m, depth + 1);
                },
                MsgView::Signal(m) => {
                    lemma_reads_back_at::<Signal>(m, depth + 1);
                },
                MsgView::Leave(m) => {
                    lemma_reads_back_at::<Leave>(m, depth + 1);
                },
                MsgView::KickPlayer(m) => {
                    lemma_reads_back_at::<KickPlayer>(m, depth + 1);
                },
            }
        }
    }
}

} // verus!
