//! The records of the log.

use vstd::prelude::*;
use crate::ident::{fresh_uuid, hyphenated, is_random_uuid, uuid_text};

verus! {

/// Whether a record still waits for its delivery.
#[derive(Debug, Clone, Copy, PartialEq, Eq, Structural)]
pub enum RecordStatus {
    Insert,
    Completed,
}

/// One record of the log. The id is a UUID, held as its 128 bits.
#[derive(Debug)]
pub struct Record {
    pub uuid: u128,
    pub topic: String,
    pub data: String,
    pub key: Option<String>,
    pub status: RecordStatus,
}

impl Record {
    /// A record that waits for its delivery, under a fresh random id.
    pub fn new(topic: String, data: String, key: Option<String>) -> (record: Record)
        ensures
            record.topic == topic,
            record.data == data,
            record.key == key,
            record.status == RecordStatus::Insert,
            is_random_uuid(record.uuid),
    {
        Record { uuid: fresh_uuid(), topic, data, key, status: RecordStatus::Insert }
    }

    /// Marks the record as delivered.
    pub fn complete(&mut self)
        ensures
            final(self).status == RecordStatus::Completed,
            final(self).uuid == old(self).uuid,
            final(self).topic == old(self).topic,
            final(self).data == old(self).data,
            final(self).key == old(self).key,
    {
        self.status = RecordStatus::Completed;
    }

    /// Whether the record has been delivered.
    pub fn is_completed(&self) -> (done: bool)
        ensures
            done == (self.status == RecordStatus::Completed),
    {
        match self.status {
            RecordStatus::Completed => true,
            RecordStatus::Insert => false,
        }
    }

    /// The record's id in the usual text of a UUID.
    pub fn uuid_text(&self) -> (text: String)
        ensures
            text@ == hyphenated(self.uuid),
    {
        uuid_text(self.uuid)
    }
}

impl Default for Record {
    /// An empty record that waits for its delivery, under a fresh random id.
    fn default() -> (record: Record)
        ensures
            record.topic@.len() == 0,
            record.data@.len() == 0,
            record.key is None,
            record.status == RecordStatus::Insert,
            is_random_uuid(record.uuid),
    {
        Record::new(String::new(), String::new(), None)
    }
}

} // verus!
