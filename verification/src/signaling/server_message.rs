//! What a server says: exactly one of these, or nothing this side knows.
use vstd::prelude::*;
use crate::signaling::codec::{
    bytes_entry, encoded, lemma_reads_back_at, lemma_field_within, lemma_merge_short,
    merge_part, part_of, put_message, Message, Readable,
};
use crate::signaling::messages::{
    Error, ErrorView, Hello, HelloView, PeerLeft, PeerLeftView, RoomCreated, RoomCreatedView,
    RoomJoined, RoomJoinedView, Roster, RosterView, Signal, SignalView, Starting, StartingView,
};
use crate::signaling::wire::{fields_bytes, Field, FieldView};

verus! {

#[derive(Debug, Clone, PartialEq, Eq)]
pub enum Msg {
    Hello(Hello),
    RoomCreated(RoomCreated),
    RoomJoined(RoomJoined),
    Roster(Roster),
    Starting(Starting),
    Signal(Signal),
    PeerLeft(PeerLeft),
    Error(Error),
}

/// What a [`Msg`] says.
#[verifier::ext_equal]
pub enum MsgView {
    Hello(HelloView),
    RoomCreated(RoomCreatedView),
    RoomJoined(RoomJoinedView),
    Roster(RosterView),
    Starting(StartingView),
    Signal(SignalView),
    PeerLeft(PeerLeftView),
    Error(ErrorView),
}

impl View for Msg {
    type V = MsgView;

    open spec fn view(&self) -> MsgView {
        match *self {
            Msg::Hello(m) => MsgView::Hello(m@),
            Msg::RoomCreated(m) => MsgView::RoomCreated(m@),
            Msg::RoomJoined(m) => MsgView::RoomJoined(m@),
            Msg::Roster(m) => MsgView::Roster(m@),
            Msg::Starting(m) => MsgView::Starting(m@),
            Msg::Signal(m) => MsgView::Signal(m@),
            Msg::PeerLeft(m) => MsgView::PeerLeft(m@),
            Msg::Error(m) => MsgView::Error(m@),
        }
    }
}

/// The field a message is carried in.
pub open spec fn msg_field(m: MsgView) -> FieldView {
    match m {
        MsgView::Hello(m) => bytes_entry(1, encoded::<Hello>(m)),
        MsgView::RoomCreated(m) => bytes_entry(2, encoded::<RoomCreated>(m)),
        MsgView::RoomJoined(m) => bytes_entry(3, encoded::<RoomJoined>(m)),
        MsgView::Roster(m) => bytes_entry(4, encoded::<Roster>(m)),
        MsgView::Starting(m) => bytes_entry(5, encoded::<Starting>(m)),
        MsgView::Signal(m) => bytes_entry(6, encoded::<Signal>(m)),
        MsgView::PeerLeft(m) => bytes_entry(7, encoded::<PeerLeft>(m)),
        MsgView::Error(m) => bytes_entry(8, encoded::<Error>(m)),
    }
}

/// One message from a server.
#[derive(Debug, Clone, PartialEq, Eq)]
pub struct ServerMessage {
    pub msg: Option<Msg>,
}

/// What a [`ServerMessage`] says.
#[verifier::ext_equal]
pub struct ServerMessageView {
    pub msg: Option<MsgView>,
}

impl View for ServerMessage {
    type V = ServerMessageView;

    open spec fn view(&self) -> ServerMessageView {
        ServerMessageView {
            msg: match self.msg {
                Some(m) => Some(m@),
                None => None,
            },
        }
    }
}

impl Message for ServerMessage {
    open spec fn blank() -> ServerMessageView {
        ServerMessageView { msg: None }
    }

    open spec fn fields(v: ServerMessageView) -> Seq<FieldView> {
        match v.msg {
            None => Seq::<FieldView>::empty(),
            Some(m) => seq![msg_field(m)],
        }
    }

    open spec fn merged(v: ServerMessageView, f: FieldView, depth: nat) -> Option<ServerMessageView> {
        if f.tag == 1 {
            let base = match v.msg {
                Some(MsgView::Hello(m)) => m,
                _ => Hello::blank(),
            };
            match part_of::<Hello>(base, f, depth) {
                Some(m) => Some(ServerMessageView { msg: Some(MsgView::Hello(m)) }),
                None => None,
            }
        } else if f.tag == 2 {
            let base = match v.msg {
                Some(MsgView::RoomCreated(m)) => m,
                _ => RoomCreated::blank(),
            };
            match part_of::<RoomCreated>(base, f, depth) {
                Some(m) => Some(ServerMessageView { msg: Some(MsgView::RoomCreated(m)) }),
                None => None,
            }
        } else if f.tag == 3 {
            let base = match v.msg {
                Some(MsgView::RoomJoined(m)) => m,
                _ => RoomJoined::blank(),
            };
            match part_of::<RoomJoined>(base, f, depth) {
                Some(m) => Some(ServerMessageView { msg: Some(MsgView::RoomJoined(m)) }),
                None => None,
            }
        } else if f.tag == 4 {
            let base = match v.msg {
                Some(MsgView::Roster(m)) => m,
                _ => Roster::blank(),
            };
            match part_of::<Roster>(base, f, depth) {
                Some(m) => Some(ServerMessageView { msg: Some(MsgView::Roster(m)) }),
                None => None,
            }
        } else if f.tag == 5 {
            let base = match v.msg {
                Some(MsgView::Starting(m)) => m,
                _ => Starting::blank(),
            };
            match part_of::<Starting>(base, f, depth) {
                Some(m) => Some(ServerMessageView { msg: Some(MsgView::Starting(m)) }),
                None => None,
            }
        } else if f.tag == 6 {
            let base = match v.msg {
                Some(MsgView::Signal(m)) => m,
                _ => Signal::blank(),
            };
            match part_of::<Signal>(base, f, depth) {
                Some(m) => Some(ServerMessageView { msg: Some(MsgView::Signal(m)) }),
                None => None,
            }
        } else if f.tag == 7 {
            let base = match v.msg {
                Some(MsgView::PeerLeft(m)) => m,
                _ => PeerLeft::blank(),
            };
            match part_of::<PeerLeft>(base, f, depth) {
                Some(m) => Some(ServerMessageView { msg: Some(MsgView::PeerLeft(m)) }),
                None => None,
            }
        } else if f.tag == 8 {
            let base = match v.msg {
                Some(MsgView::Error(m)) => m,
                _ => Error::blank(),
            };
            match part_of::<Error>(base, f, depth) {
                Some(m) => Some(ServerMessageView { msg: Some(MsgView::Error(m)) }),
                None => None,
            }
        } else {
            Some(v)
        }
    }

    fn new_blank() -> (m: ServerMessage) {
        ServerMessage { msg: None }
    }

    fn put_fields(&self, out: &mut Vec<u8>) {
        match &self.msg {
            None => {
                assert(out@ =~= old(out)@ + fields_bytes(ServerMessage::fields(self@)));
            },
            Some(m) => match m {
                Msg::Hello(m) => {
                    put_message(out, 1, m);
                },
                Msg::RoomCreated(m) => {
                    put_message(out, 2, m);
                },
                Msg::RoomJoined(m) => {
                    put_message(out, 3, m);
                },
                Msg::Roster(m) => {
                    put_message(out, 4, m);
                },
                Msg::Starting(m) => {
                    put_message(out, 5, m);
                },
                Msg::Signal(m) => {
                    put_message(out, 6, m);
                },
                Msg::PeerLeft(m) => {
                    put_message(out, 7, m);
                },
                Msg::Error(m) => {
                    put_message(out, 8, m);
                },
            },
        }
    }

    fn merge(&mut self, f: Field, depth: u32) -> (ok: bool) {
        if f.tag == 1 {
            let base = match self.msg.take() {
                Some(Msg::Hello(m)) => m,
                _ => Hello::new_blank(),
            };
            match merge_part(base, f, depth) {
                Some(m) => {
                    self.msg = Some(Msg::Hello(m));
                    true
                },
                None => false,
            }
        } else if f.tag == 2 {
            let base = match self.msg.take() {
                Some(Msg::RoomCreated(m)) => m,
                _ => RoomCreated::new_blank(),
            };
            match merge_part(base, f, depth) {
                Some(m) => {
                    self.msg = Some(Msg::RoomCreated(m));
                    true
                },
                None => false,
            }
        } else if f.tag == 3 {
            let base = match self.msg.take() {
                Some(Msg::RoomJoined(m)) => m,
                _ => RoomJoined::new_blank(),
            };
            match merge_part(base, f, depth) {
                Some(m) => {
                    self.msg = Some(Msg::RoomJoined(m));
                    true
                },
                None => false,
            }
        } else if f.tag == 4 {
            let base = match self.msg.take() {
                Some(Msg::Roster(m)) => m,
                _ => Roster::new_blank(),
            };
            match merge_part(base, f, depth) {
                Some(m) => {
                    self.msg = Some(Msg::Roster(m));
                    true
                },
                None => false,
            }
        } else if f.tag == 5 {
            let base = match self.msg.take() {
                Some(Msg::Starting(m)) => m,
                _ => Starting::new_blank(),
            };
            match merge_part(base, f, depth) {
                Some(m) => {
                    self.msg = Some(Msg::Starting(m));
                    true
                },
                None => false,
            }
        } else if f.tag == 6 {
            let base = match self.msg.take() {
                Some(Msg::Signal(m)) => m,
                _ => Signal::new_blank(),
            };
            match merge_part(base, f, depth) {
                Some(m) => {
                    self.msg = Some(Msg::Signal(m));
                    true
                },
                None => false,
            }
        } else if f.tag == 7 {
            let base = match self.msg.take() {
                Some(Msg::PeerLeft(m)) => m,
                _ => PeerLeft::new_blank(),
            };
            match merge_part(base, f, depth) {
                Some(m) => {
                    self.msg = Some(Msg::PeerLeft(m));
                    true
                },
                None => false,
            }
        } else if f.tag == 8 {
            let base = match self.msg.take() {
                Some(Msg::Error(m)) => m,
                _ => Error::new_blank(),
            };
            match merge_part(base, f, depth) {
                Some(m) => {
                    self.msg = Some(Msg::Error(m));
                    true
                },
                None => false,
            }
        } else {
            true
        }
    }
}

impl Readable for ServerMessage {
    open spec fn height() -> nat {
        2
    }

    proof fn reads_back(v: ServerMessageView, depth: nat) {
        let blank = ServerMessage::blank();
        let all = ServerMessage::fields(v);
        lemma_merge_short::<ServerMessage>(blank, all, depth);
        if v.msg is Some {
            lemma_field_within(all, 0);
            match v.msg->Some_0 {
                MsgView::Hello(m) => {
                    lemma_reads_back_at::<Hello>(m, depth + 1);
                },
                MsgView::RoomCreated(m) => {
                    lemma_reads_back_at::<RoomCreated>(m, depth + 1);
                },
                MsgView::RoomJoined(m) => {
                    lemma_reads_back_at::<RoomJoined>(m, depth + 1);
                },
                MsgView::Roster(m) => {
                    lemma_reads_back_at::<Roster>(m, depth + 1);
                },
                MsgView::Starting(m) => {
                    lemma_reads_back_at::<Starting>(m, depth + 1);
                },
                MsgView::Signal(m) => {
                    lemma_reads_back_at::<Signal>(m, depth + 1);
                },
                MsgView::PeerLeft(m) => {
                    lemma_reads_back_at::<PeerLeft>(m, depth + 1);
                },
                MsgView::Error(m) => {
                    lemma_reads_back_at::<Error>(m, depth + 1);
                },
            }
        }
    }
}

} // verus!
