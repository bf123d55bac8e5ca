//! The pending set on the wire: what the service tells miners, and what miners make
//! of it.

use crate::json::{
    entries, fields, get_member, has_only_members, is_plain, is_strict_record, json, json_read, json_text, json_texts,
    json_unsigned, json_written, member, object, put, read_json, read_text, read_texts, read_unsigned, text,
    texts_json, texts_value, unsigned, write_json, Json,
};
pub use crate::ledger::Tip;
use crate::ledger::TipView;
use crate::text::{same_text, texts};
use crate::transaction::{ironwood_only, is_raw_error, raw_transaction, raw_tx, RawTxError, Tx};
use serde_json::Value;
use vstd::prelude::*;
use vstd::utf8::encode_utf8;

verus! {

/// The largest message that the service sends or takes, in bytes.
pub const CAP: usize = 2097152;

/// The payments that a miner is asked to put into the block after `tip`.
#[derive(Debug, PartialEq)]
pub struct Pending {
    pub chain_id: String,
    pub tip: Tip,
    pub transactions: Vec<String>,
}

#[verifier::ext_equal]
pub struct PendingView {
    pub chain_id: Seq<char>,
    pub tip: TipView,
    pub transactions: Seq<Seq<char>>,
}

impl View for Pending {
    type V = PendingView;

    open spec fn view(&self) -> PendingView {
        PendingView { chain_id: self.chain_id@, tip: self.tip@, transactions: texts(self.transactions@) }
    }
}

impl Clone for Pending {
    fn clone(&self) -> (copy: Self)
        ensures
            copy@ == self@,
    {
        Pending { chain_id: self.chain_id.clone(), tip: self.tip.clone(), transactions: self.transactions.clone() }
    }
}

/// A block as JSON.
pub open spec fn tip_json(tip: TipView) -> Json {
    Json::Object(fields(seq![("height"@, Json::Unsigned(tip.height as u64)), ("hash"@, Json::Text(tip.hash))]))
}

/// Makes the JSON value of a block.
pub(crate) fn tip_value(tip: &Tip) -> (value: Value)
    ensures
        json(value) == tip_json(tip@),
{
    let mut list = entries();
    put(&mut list, "height", unsigned(tip.height as u64));
    put(&mut list, "hash", text(tip.hash.clone()));
    assert(crate::json::entry_views(list@) =~= seq![
        ("height"@, Json::Unsigned(tip.height as u64)),
        ("hash"@, Json::Text(tip.hash@)),
    ]);
    object(list)
}

/// The block that a JSON value stands for.
pub open spec fn json_tip(value: Json) -> Option<TipView> {
    let height = json_unsigned(member(value, "height"@, 0, 2));
    let hash = json_text(member(value, "hash"@, 1, 2));
    if is_strict_record(value, 2) && height is Some && height->0 <= u32::MAX && hash is Some {
        Some(TipView { height: height->0 as u32, hash: hash->0 })
    } else {
        None
    }
}

/// Reads a block from its JSON value.
pub(crate) fn read_tip(value: &Value) -> (tip: Option<Tip>)
    ensures
        match tip {
            Some(tip) => json_tip(json(*value)) == Some(tip@),
            None => json_tip(json(*value)) is None,
        },
{
    if !has_only_members(value, 2) {
        return None;
    }
    let height = read_unsigned(get_member(value, "height", 0, 2));
    let hash = read_text(get_member(value, "hash", 1, 2));
    match (height, hash) {
        (Some(height), Some(hash)) => if height <= u32::MAX as u64 {
            Some(Tip { height: height as u32, hash })
        } else {
            None
        },
        _ => None,
    }
}

/// The pending set as JSON.
pub open spec fn pending_json(pending: PendingView) -> Json {
    Json::Object(
        fields(
            seq![
                ("chain_id"@, Json::Text(pending.chain_id)),
                ("tip"@, tip_json(pending.tip)),
                ("transactions"@, texts_json(pending.transactions)),
            ],
        ),
    )
}

/// Makes the JSON value of the pending set.
fn pending_value(pending: &Pending) -> (value: Value)
    ensures
        json(value) == pending_json(pending@),
{
    let mut list = entries();
    put(&mut list, "chain_id", text(pending.chain_id.clone()));
    put(&mut list, "tip", tip_value(&pending.tip));
    put(&mut list, "transactions", texts_value(&pending.transactions));
    assert(crate::json::entry_views(list@) =~= seq![
        ("chain_id"@, Json::Text(pending@.chain_id)),
        ("tip"@, tip_json(pending@.tip)),
        ("transactions"@, texts_json(pending@.transactions)),
    ]);
    object(list)
}

/// The message that carries the pending set.
pub open spec fn pending_bytes(pending: PendingView) -> Seq<u8> {
    json_written(pending_json(pending))
}

/// The pending set that a JSON value stands for.
pub open spec fn json_pending(value: Json) -> Option<PendingView> {
    let chain_id = json_text(member(value, "chain_id"@, 0, 3));
    let tip = member(value, "tip"@, 1, 3);
    let transactions = member(value, "transactions"@, 2, 3);
    if is_strict_record(value, 3) && chain_id is Some && tip is Some && json_tip(tip->0) is Some && transactions is Some
        && json_texts(transactions->0) is Some {
        Some(
            PendingView { chain_id: chain_id->0, tip: json_tip(tip->0)->0, transactions: json_texts(transactions->0)->0 },
        )
    } else {
        None
    }
}

/// The pending set that a message carries.
pub open spec fn pending_read(bytes: Seq<u8>) -> Option<PendingView> {
    match json_read(bytes) {
        Some(value) => json_pending(value),
        None => None,
    }
}

pub proof fn lemma_tip_reads_back(tip: TipView)
    ensures
        json_tip(tip_json(tip)) == Some(tip),
        is_plain(tip_json(tip), 2),
{
    crate::json::lemma_raw_key();
    reveal_strlit("height");
    reveal_strlit("hash");
    let list = seq![("height"@, Json::Unsigned(tip.height as u64)), ("hash"@, Json::Text(tip.hash))];
    assert("height"@.len() != "hash"@.len());
    assert(list.drop_last() =~= seq![list[0]]);
    assert(seq![list[0]].drop_last() =~= Seq::<(Seq<char>, Json)>::empty());
    reveal_with_fuel(fields, 3);
    assert(fields(list) =~= Map::<Seq<char>, Json>::empty().insert("height"@, list[0].1).insert("hash"@, list[1].1));
    assert(fields(list).len() == 2);
    reveal_with_fuel(is_plain, 3);
}

pub proof fn lemma_texts_read_back(list: Seq<Seq<char>>)
    ensures
        json_texts(texts_json(list)) == Some(list),
        is_plain(texts_json(list), 2),
{
    let items = list.map_values(|t: Seq<char>| Json::Text(t));
    assert(items.map_values(|j: Json| j->Text_0) =~= list);
    reveal_with_fuel(is_plain, 3);
}

proof fn lemma_pending_reads_back(pending: PendingView)
    ensures
        json_pending(pending_json(pending)) == Some(pending),
        is_plain(pending_json(pending), 100),
{
    crate::json::lemma_raw_key();
    reveal_strlit("chain_id");
    reveal_strlit("tip");
    reveal_strlit("transactions");
    lemma_tip_reads_back(pending.tip);
    lemma_texts_read_back(pending.transactions);
    let a = ("chain_id"@, Json::Text(pending.chain_id));
    let b = ("tip"@, tip_json(pending.tip));
    let c = ("transactions"@, texts_json(pending.transactions));
    let list = seq![a, b, c];
    assert("chain_id"@.len() == 8 && "tip"@.len() == 3 && "transactions"@.len() == 12);
    assert(list.drop_last() =~= seq![a, b]);
    assert(seq![a, b].drop_last() =~= seq![a]);
    assert(seq![a].drop_last() =~= Seq::<(Seq<char>, Json)>::empty());
    reveal_with_fuel(fields, 4);
    assert(fields(list) =~= Map::<Seq<char>, Json>::empty().insert(a.0, a.1).insert(b.0, b.1).insert(c.0, c.1));
    assert(fields(list).len() == 3);
    crate::json::lemma_plain_deeper(tip_json(pending.tip), 2, 99);
    crate::json::lemma_plain_deeper(texts_json(pending.transactions), 2, 99);
    reveal_with_fuel(is_plain, 2);
}

impl Pending {
    /// Writes the message that carries the pending set. A miner reads it back as it
    /// was.
    pub fn to_message(&self) -> (message: Result<Vec<u8>, String>)
        ensures
            message is Ok,
            message->Ok_0@ == pending_bytes(self@),
            pending_read(message->Ok_0@) == Some(self@),
    {
        proof {
            lemma_pending_reads_back(self@);
        }
        match write_json(&pending_value(self)) {
            Ok(text) => Ok(bytes_of(text.as_str())),
            Err(words) => Err(words),
        }
    }

    /// Reads a message that carries a pending set.
    pub fn from_message(message: &[u8]) -> (pending: Result<Pending, String>)
        ensures
            match pending {
                Ok(pending) => pending_read(message@) == Some(pending@),
                Err(words) => {
                    &&& pending_read(message@) is None
                    &&& json_read(message@) is Some ==> words@ == "invalid pending set"@
                },
            },
    {
        let value = match read_json(message) {
            Ok(value) => value,
            Err(words) => {
                return Err(words);
            },
        };
        if !has_only_members(&value, 3) {
            return Err("invalid pending set".to_string());
        }
        let chain_id = read_text(get_member(&value, "chain_id", 0, 3));
        let tip = match get_member(&value, "tip", 1, 3) {
            Some(tip) => read_tip(tip),
            None => None,
        };
        let transactions = match get_member(&value, "transactions", 2, 3) {
            Some(list) => read_texts(list),
            None => None,
        };
        match (chain_id, tip, transactions) {
            (Some(chain_id), Some(tip), Some(transactions)) => Ok(Pending { chain_id, tip, transactions }),
            _ => Err("invalid pending set".to_string()),
        }
    }

    /// Whether two pending sets are the same.
    pub fn same(&self, other: &Pending) -> (same: bool)
        ensures
            same == (self@ == other@),
    {
        assert(self@.transactions.len() == self.transactions@.len() && other@.transactions.len() == other.transactions@.len());
        if !same_text(self.chain_id.as_str(), other.chain_id.as_str()) || self.tip.height != other.tip.height || !same_text(
            self.tip.hash.as_str(),
            other.tip.hash.as_str(),
        ) || self.transactions.len() != other.transactions.len() {
            return false;
        }
        let mut i: usize = 0;
        while i < self.transactions.len()
            invariant
                i <= self.transactions.len() == other.transactions.len(),
                forall|k: int| 0 <= k < i ==> #[trigger] self@.transactions[k] == other@.transactions[k],
            decreases self.transactions.len() - i,
        {
            if !same_text(self.transactions[i].as_str(), other.transactions[i].as_str()) {
                assert(self@.transactions[i as int] != other@.transactions[i as int]);
                return false;
            }
            i += 1;
        }
        assert(self@.transactions =~= other@.transactions);
        true
    }
}

/// The bytes of a text.
pub(crate) fn bytes_of(text: &str) -> (bytes: Vec<u8>)
    ensures
        bytes@ == encode_utf8(text@),
{
    let slice = text.as_bytes();
    let mut bytes: Vec<u8> = Vec::new();
    bytes.extend_from_slice(slice);
    assert(bytes@ =~= slice@);
    bytes
}

/// The name under which the service is found.
pub const SERVICE: &'static str = "zakura.preconf.v1";

/// The kind of the stream on which pending sets are asked for.
pub const STREAM_KIND: u16 = 65;

/// The version of the messages on the stream.
pub const STREAM_VERSION: u16 = 1;

/// The largest frame of the stream, in bytes: the largest message and its header.
pub const FRAME_CAP: u32 = 2097160;

/// The capability bit of the stream.
pub const CAPABILITY: u64 = 131072;

/// The kinds of messages: a request, a pending set, and a refusal.
pub const REQUEST: u16 = 0;

pub const PENDING: u16 = 1;

pub const REFUSAL: u16 = 2;

/// One message of the stream.
#[derive(Debug, PartialEq)]
pub struct Frame {
    pub message_type: u16,
    pub flags: u16,
    pub payload: Vec<u8>,
}

/// Why a request gets no reply.
#[derive(Debug, PartialEq)]
pub enum Reject {
    /// It is no request.
    Kind,
    /// Its payload is no request.
    Payload(String),
    /// No reply fits into a frame.
    Capacity,
}

impl Reject {
    /// The error in words.
    pub fn message(&self) -> (text: String)
        ensures
            match *self {
                Reject::Kind => text@ == "invalid preconf request"@,
                Reject::Payload(words) => text@ == words@,
                Reject::Capacity => text@ == "frame capacity"@,
            },
    {
        match self {
            Reject::Kind => "invalid preconf request".to_string(),
            Reject::Payload(words) => words.clone(),
            Reject::Capacity => "frame capacity".to_string(),
        }
    }
}

/// A request for the pending set of a chain, as JSON.
pub open spec fn request_json(chain_id: Seq<char>) -> Json {
    Json::Object(fields(seq![("chain_id"@, Json::Text(chain_id))]))
}

/// The chain that a request asks about.
pub open spec fn request_read(bytes: Seq<u8>) -> Option<Seq<char>> {
    match json_read(bytes) {
        Some(value) => if is_strict_record(value, 1) {
            json_text(member(value, "chain_id"@, 0, 1))
        } else {
            None
        },
        None => None,
    }
}

/// Writes a request for the pending set of a chain. The service reads it as such.
pub fn pending_request(chain_id: &str) -> (message: Result<Vec<u8>, String>)
    ensures
        message is Ok,
        message->Ok_0@ == json_written(request_json(chain_id@)),
        request_read(message->Ok_0@) == Some(chain_id@),
{
    let mut list = entries();
    put(&mut list, "chain_id", text(chain_id.to_string()));
    proof {
        crate::json::lemma_raw_key();
        reveal_strlit("chain_id");
        let entry = ("chain_id"@, Json::Text(chain_id@));
        assert(crate::json::entry_views(list@) =~= seq![entry]);
        assert(seq![entry].drop_last() =~= Seq::<(Seq<char>, Json)>::empty());
        reveal_with_fuel(fields, 2);
        assert(fields(seq![entry]) =~= Map::<Seq<char>, Json>::empty().insert(entry.0, entry.1));
        assert(fields(seq![entry]).len() == 1);
        reveal_with_fuel(is_plain, 2);
        assert(is_plain(request_json(chain_id@), 100));
    }
    match write_json(&object(list)) {
        Ok(text) => Ok(bytes_of(text.as_str())),
        Err(words) => Err(words),
    }
}

/// Reads the chain that a request asks about.
pub fn read_request(message: &[u8]) -> (chain_id: Result<String, String>)
    ensures
        match chain_id {
            Ok(chain_id) => request_read(message@) == Some(chain_id@),
            Err(words) => {
                &&& request_read(message@) is None
                &&& json_read(message@) is Some ==> words@ == "invalid preconf request"@
            },
        },
{
    match read_json(message) {
        Ok(value) => {
            if !has_only_members(&value, 1) {
                return Err("invalid preconf request".to_string());
            }
            match read_text(get_member(&value, "chain_id", 0, 1)) {
                Some(chain_id) => Ok(chain_id),
                None => Err("invalid preconf request".to_string()),
            }
        },
        Err(words) => Err(words),
    }
}

/// The service as miners see it: the chain that it serves and the pending set that it
/// published last.
pub struct PendingService {
    pub feed: Option<Pending>,
    pub chain_id: String,
}

/// The refusals of the service.
pub open spec fn wrong_chain() -> Seq<u8> {
    encode_utf8("{\"reason\":\"wrong_chain\"}"@)
}

pub open spec fn not_ready() -> Seq<u8> {
    encode_utf8("{\"reason\":\"not_ready\"}"@)
}

pub open spec fn no_capacity() -> Seq<u8> {
    encode_utf8("{\"reason\":\"capacity\"}"@)
}

/// The bytes of payload that fit into a frame between two peers.
pub open spec fn frame_room(max_frame: u32, max_message: u32) -> int {
    let least = if max_frame < max_message {
        max_frame
    } else {
        max_message
    };
    if least >= 8 {
        least - 8
    } else {
        0
    }
}

/// The reply of the service to a request for a chain, before it is held against the
/// size of a frame.
pub open spec fn answer(feed: Option<PendingView>, own: Seq<char>, asked: Seq<char>) -> (u16, Seq<u8>) {
    if asked != own {
        (REFUSAL, wrong_chain())
    } else if feed is Some {
        (PENDING, pending_bytes(feed->0))
    } else {
        (REFUSAL, not_ready())
    }
}

/// The reply of the service to a request for a chain: a refusal where the answer does
/// not fit, and nothing where not even that fits.
pub open spec fn reply(feed: Option<PendingView>, own: Seq<char>, asked: Seq<char>, room: int) -> Option<(u16, Seq<u8>)> {
    let full = answer(feed, own, asked);
    if full.1.len() <= room {
        Some(full)
    } else if no_capacity().len() <= room {
        Some((REFUSAL, no_capacity()))
    } else {
        None
    }
}

/// The model of an optional pending set.
pub open spec fn optional_pending(pending: Option<Pending>) -> Option<PendingView> {
    match pending {
        Some(p) => Some(p@),
        None => None,
    }
}

impl PendingService {
    /// The name of the service.
    pub fn name(&self) -> (name: &'static str)
        ensures
            name@ == "zakura.preconf.v1"@,
    {
        SERVICE
    }

    /// The kinds of messages of the stream.
    pub fn message_types(&self) -> (kinds: Vec<u16>)
        ensures
            kinds@ == seq![0u16, 1u16, 2u16],
    {
        let kinds = vec![REQUEST, PENDING, REFUSAL];
        assert(kinds@ =~= seq![0u16, 1u16, 2u16]);
        kinds
    }

    /// The largest payload of each kind of message.
    pub fn message_payload_limits(&self) -> (limits: Vec<(u16, usize)>)
        ensures
            limits@ == seq![(0u16, 128usize), (1u16, CAP), (2u16, 128usize)],
    {
        let limits = vec![(REQUEST, 128usize), (PENDING, CAP), (REFUSAL, 128usize)];
        assert(limits@ =~= seq![(0u16, 128usize), (1u16, CAP), (2u16, 128usize)]);
        limits
    }

    /// Answers a request: with the pending set if it is for the chain that the
    /// service serves, if there is one, and if it fits into a frame. Whoever gets the
    /// pending set reads it as it was published.
    pub fn request_frame(&self, max_frame: u32, max_message: u32, frame: &Frame) -> (frames: Result<Vec<Frame>, Reject>)
        ensures
            match frames {
                Ok(frames) => {
                    &&& frame.message_type == REQUEST && frame.flags == 0
                    &&& request_read(frame.payload@) is Some
                    &&& frames@.len() == 1
                    &&& frames@[0].flags == 0
                    &&& reply(
                        optional_pending(self.feed),
                        self.chain_id@,
                        request_read(frame.payload@)->0,
                        frame_room(max_frame, max_message),
                    ) == Some((frames@[0].message_type, frames@[0].payload@))
                    &&& frames@[0].message_type == PENDING ==> pending_read(frames@[0].payload@) == optional_pending(self.feed)
                },
                Err(Reject::Kind) => frame.message_type != REQUEST || frame.flags != 0,
                Err(Reject::Payload(words)) => {
                    &&& frame.message_type == REQUEST && frame.flags == 0
                    &&& request_read(frame.payload@) is None
                    &&& json_read(frame.payload@) is Some ==> words@ == "invalid preconf request"@
                },
                Err(Reject::Capacity) => {
                    &&& frame.message_type == REQUEST && frame.flags == 0
                    &&& request_read(frame.payload@) is Some
                    &&& reply(
                        optional_pending(self.feed),
                        self.chain_id@,
                        request_read(frame.payload@)->0,
                        frame_room(max_frame, max_message),
                    ) is None
                },
            },
    {
        if frame.message_type != REQUEST || frame.flags != 0 {
            return Err(Reject::Kind);
        }
        let asked = match read_request(frame.payload.as_slice()) {
            Ok(asked) => asked,
            Err(words) => {
                return Err(Reject::Payload(words));
            },
        };
        let (mut kind, mut payload): (u16, Vec<u8>) = if !same_text(asked.as_str(), self.chain_id.as_str()) {
            (REFUSAL, bytes_of("{\"reason\":\"wrong_chain\"}"))
        } else {
            match &self.feed {
                Some(pending) => match pending.to_message() {
                    Ok(message) => (PENDING, message),
                    Err(words) => {
                        return Err(Reject::Payload(words));
                    },
                },
                None => (REFUSAL, bytes_of("{\"reason\":\"not_ready\"}")),
            }
        };
        let least = if max_frame < max_message {
            max_frame
        } else {
            max_message
        };
        let capacity = (least as usize).saturating_sub(8);
        if payload.len() > capacity {
            kind = REFUSAL;
            payload = bytes_of("{\"reason\":\"capacity\"}");
        }
        if payload.len() > capacity {
            return Err(Reject::Capacity);
        }
        Ok(vec![Frame { message_type: kind, flags: 0, payload }])
    }
}

/// A pending set is sent only to those who ask for the chain of the service, only
/// where all of it fits, and every reply fits: a request for another chain, or one
/// with too little room, never gets the payments.
pub proof fn law_pending_set_is_sent_whole_to_its_chain(
    feed: Option<PendingView>,
    own: Seq<char>,
    asked: Seq<char>,
    room: int,
)
    requires
        reply(feed, own, asked, room) is Some,
    ensures
        ({
            let (kind, payload) = reply(feed, own, asked, room)->0;
            &&& kind == PENDING || kind == REFUSAL
            &&& kind == PENDING <==> asked == own && feed is Some && pending_bytes(feed->0).len() <= room
            &&& kind == PENDING ==> payload == pending_bytes(feed->0)
            &&& kind == REFUSAL ==> payload == wrong_chain() || payload == not_ready() || payload == no_capacity()
            &&& payload.len() <= room
        }),
{
}

/// The service together with the names that a node provides and seeks: the server
/// provides it, every other node seeks it.
pub struct CustomService {
    pub service: PendingService,
    pub provides: Vec<String>,
    pub seeks: Vec<String>,
}

/// Sets up the service for a server or for a miner.
pub fn custom(feed: Option<Pending>, chain_id: String, server: bool) -> (custom: CustomService)
    ensures
        custom.service.feed == feed,
        custom.service.chain_id == chain_id,
        texts(custom.provides@) == if server {
            seq!["zakura.preconf.v1"@]
        } else {
            Seq::<Seq<char>>::empty()
        },
        texts(custom.seeks@) == if server {
            Seq::<Seq<char>>::empty()
        } else {
            seq!["zakura.preconf.v1"@]
        },
{
    let mut provides: Vec<String> = Vec::new();
    let mut seeks: Vec<String> = Vec::new();
    if server {
        provides.push(SERVICE.to_string());
    } else {
        seeks.push(SERVICE.to_string());
    }
    let custom = CustomService { service: PendingService { feed, chain_id }, provides, seeks };
    assert(texts(custom.provides@) =~= if server {
        seq!["zakura.preconf.v1"@]
    } else {
        Seq::<Seq<char>>::empty()
    });
    assert(texts(custom.seeks@) =~= if server {
        Seq::<Seq<char>>::empty()
    } else {
        seq!["zakura.preconf.v1"@]
    });
    custom
}

/// A transaction that a node is asked to verify for the block at a height.
pub struct VerifyRequest {
    pub tx: Tx,
    pub height: u32,
}

/// Why a transaction is not handed to the verifier of a node.
#[derive(Debug, PartialEq)]
pub enum VerifyError {
    /// It cannot be read.
    Raw(RawTxError),
    /// It does not spend and pay in the Ironwood pool alone.
    NotIronwood,
    /// The node has no chain yet.
    NotReady,
    /// There is no next height.
    Height,
}

impl VerifyError {
    /// The error in words.
    pub fn message(&self) -> (text: String)
        ensures
            match *self {
                VerifyError::Raw(RawTxError::Hex(words)) => text@ == words@,
                VerifyError::Raw(RawTxError::Malformed(words)) => text@ == words@,
                VerifyError::Raw(RawTxError::Trailing) => text@ == "trailing transaction bytes"@,
                VerifyError::NotIronwood => text@ == "Ironwood-only v6 transaction required"@,
                VerifyError::NotReady => text@ == "chain not ready"@,
                VerifyError::Height => text@ == "The resulting height would overflow Height::MAX."@,
            },
    {
        match self {
            VerifyError::Raw(e) => e.message(),
            VerifyError::NotIronwood => "Ironwood-only v6 transaction required".to_string(),
            VerifyError::NotReady => "chain not ready".to_string(),
            VerifyError::Height => "The resulting height would overflow Height::MAX.".to_string(),
        }
    }
}

/// The largest height that a block can have.
pub const MAX_HEIGHT: u32 = 2147483647;

/// Prepares the verification of a transaction for the next block: it must spend and
/// pay in the Ironwood pool alone.
pub fn verify(raw: &str, best_height: Option<u32>) -> (request: Result<VerifyRequest, VerifyError>)
    ensures
        match request {
            Ok(request) => {
                &&& raw_transaction(raw@) == Some(request.tx@)
                &&& ironwood_only(request.tx@)
                &&& best_height is Some && best_height->0 < MAX_HEIGHT
                &&& request.height == best_height->0 + 1
            },
            Err(VerifyError::Raw(e)) => is_raw_error(e, raw@),
            Err(VerifyError::NotIronwood) => raw_transaction(raw@) is Some && !ironwood_only(raw_transaction(raw@)->0),
            Err(VerifyError::NotReady) => {
                &&& raw_transaction(raw@) is Some && ironwood_only(raw_transaction(raw@)->0)
                &&& best_height is None
            },
            Err(VerifyError::Height) => {
                &&& raw_transaction(raw@) is Some && ironwood_only(raw_transaction(raw@)->0)
                &&& best_height is Some && best_height->0 >= MAX_HEIGHT
            },
        },
{
    let tx = match raw_tx(raw) {
        Ok(tx) => tx,
        Err(e) => {
            return Err(VerifyError::Raw(e));
        },
    };
    if !tx.is_ironwood_only() {
        return Err(VerifyError::NotIronwood);
    }
    match best_height {
        Some(height) => if height < MAX_HEIGHT {
            Ok(VerifyRequest { tx, height: height + 1 })
        } else {
            Err(VerifyError::Height)
        },
        None => Err(VerifyError::NotReady),
    }
}

} // verus!
