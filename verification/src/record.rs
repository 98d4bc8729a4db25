use vstd::prelude::*;

verus! {

/// Mathematical model of a stored post record.
pub ghost struct RecordView {
    pub id: Seq<char>,
    pub title: Seq<char>,
    pub message: Seq<char>,
    pub media: Option<Seq<char>>,
    pub created_at: int,
}

/// A post's durable metadata. The `directory_id` doubles as the storage
/// key and the name of the post's directory; `media_reference` names the
/// post's media file relative to that directory, when one exists.
#[derive(Debug)]
pub struct PostRecord {
    pub directory_id: String,
    pub title: String,
    pub message: String,
    pub media_reference: Option<String>,
    pub created_at: i64,
}

impl View for PostRecord {
    type V = RecordView;

    open spec fn view(&self) -> RecordView {
        RecordView {
            id: self.directory_id@,
            title: self.title@,
            message: self.message@,
            media: match self.media_reference {
                Option::Some(m) => Option::Some(m@),
                Option::None => Option::None,
            },
            created_at: self.created_at as int,
        }
    }
}

/// A record the store can hold: the timestamp is a non-negative number
/// of seconds, and each field is small enough for its length to be
/// written as a fixed-width count.
pub open spec fn record_wf(r: RecordView) -> bool {
    &&& 0 <= r.created_at < 0x8000000000000000
    &&& r.id.len() < 0x10000000000000000
    &&& r.title.len() < 0x10000000000000000
    &&& r.message.len() < 0x10000000000000000
    &&& match r.media {
        Option::Some(m) => m.len() < 0x10000000000000000,
        Option::None => true,
    }
}

impl Clone for PostRecord {
    fn clone(&self) -> (r: Self)
        ensures
            r@ == self@,
    {
        PostRecord {
            directory_id: self.directory_id.clone(),
            title: self.title.clone(),
            message: self.message.clone(),
            media_reference: match &self.media_reference {
                Option::Some(m) => Option::Some(m.clone()),
                Option::None => Option::None,
            },
            created_at: self.created_at,
        }
    }
}

} // verus!
