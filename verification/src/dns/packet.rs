//! Whole messages: a header, then the sections that it counts, in the order
//! questions, answers, authority records, additional records.

use vstd::prelude::*;
use vstd::utf8::encode_utf8;
use crate::dns::error::{DecodeError, EncodeError};
use crate::dns::header::DnsHeader;
use crate::dns::name::labels_fit;
use crate::dns::question::{lemma_question_round_trip, DnsQuestion, QuestionView};
use crate::dns::record::{DnsResourceRecord, RecordView};
use crate::dns::wire::{push_range, Cursor};

verus! {

/// A whole message: the header and the four sections, in wire order.
#[derive(Clone, Debug, PartialEq, Eq)]
pub struct DnsPacket {
    pub header: DnsHeader,
    pub questions: Vec<DnsQuestion>,
    pub answers: Vec<DnsResourceRecord>,
    pub authorities: Vec<DnsResourceRecord>,
    pub additionals: Vec<DnsResourceRecord>,
}

/// A message as a mathematical value.
pub struct PacketView {
    pub header: DnsHeader,
    pub questions: Seq<QuestionView>,
    pub answers: Seq<RecordView>,
    pub authorities: Seq<RecordView>,
    pub additionals: Seq<RecordView>,
}

/// The questions of a section as mathematical values.
pub open spec fn questions_view(questions: Seq<DnsQuestion>) -> Seq<QuestionView> {
    questions.map_values(|q: DnsQuestion| q@)
}

/// The records of a section as mathematical values.
pub open spec fn records_view(records: Seq<DnsResourceRecord>) -> Seq<RecordView> {
    records.map_values(|r: DnsResourceRecord| r@)
}

impl View for DnsPacket {
    type V = PacketView;

    open spec fn view(&self) -> PacketView {
        PacketView {
            header: self.header,
            questions: questions_view(self.questions@),
            answers: records_view(self.answers@),
            authorities: records_view(self.authorities@),
            additionals: records_view(self.additionals@),
        }
    }
}

/// A section of `count` items that starts at `pos`: the items in the order
/// in which they stand, each read where the one before it ended, and the
/// position after the last. The first item that fails to decode fails the
/// section.
pub open spec fn spec_section<T>(
    item: spec_fn(int) -> Result<(T, int), DecodeError>,
    pos: int,
    count: nat,
) -> Result<(Seq<T>, int), DecodeError>
    decreases count,
{
    if count == 0 {
        Ok((Seq::empty(), pos))
    } else {
        match item(pos) {
            Err(e) => Err(e),
            Ok((first, next)) => match spec_section(item, next, (count - 1) as nat) {
                Err(e) => Err(e),
                Ok((rest, end)) => Ok((seq![first] + rest, end)),
            },
        }
    }
}

/// What a reader that holds the items `done` makes of the outcome of reading
/// the rest of the section.
pub open spec fn section_after<T>(done: Seq<T>, rest: Result<(Seq<T>, int), DecodeError>) -> Result<
    (Seq<T>, int),
    DecodeError,
> {
    match rest {
        Ok((items, end)) => Ok((done + items, end)),
        Err(e) => Err(e),
    }
}

/// A section that decodes has as many items as were asked for.
pub proof fn lemma_section_len<T>(
    item: spec_fn(int) -> Result<(T, int), DecodeError>,
    pos: int,
    count: nat,
)
    requires
        spec_section(item, pos, count) is Ok,
    ensures
        spec_section(item, pos, count)->Ok_0.0.len() == count,
    decreases count,
{
    if count > 0 {
        lemma_section_len(item, item(pos)->Ok_0.1, (count - 1) as nat);
    }
}

/// The decoder of one question of the message `all`, read from `data`.
pub open spec fn question_item(data: Seq<u8>, all: Seq<u8>) -> spec_fn(int) -> Result<
    (QuestionView, int),
    DecodeError,
> {
    |pos: int| QuestionView::spec_deserialize(data, pos, all)
}

/// The decoder of one record of the message `all`, read from `data`.
pub open spec fn record_item(data: Seq<u8>, all: Seq<u8>) -> spec_fn(int) -> Result<
    (RecordView, int),
    DecodeError,
> {
    |pos: int| RecordView::spec_deserialize(data, pos, all)
}

/// The wire form of a sequence of questions, one behind the other.
pub open spec fn spec_serialize_questions(questions: Seq<QuestionView>) -> Result<
    Seq<u8>,
    EncodeError,
>
    decreases questions.len(),
{
    if questions.len() == 0 {
        Ok(Seq::empty())
    } else {
        match questions[0].spec_serialize() {
            Err(e) => Err(e),
            Ok(first) => match spec_serialize_questions(questions.drop_first()) {
                Err(e) => Err(e),
                Ok(rest) => Ok(first + rest),
            },
        }
    }
}

impl PacketView {
    /// What is sent of a message: the header and the questions. The other
    /// sections are never sent.
    pub open spec fn spec_serialize(self) -> Result<Seq<u8>, EncodeError> {
        match spec_serialize_questions(self.questions) {
            Err(e) => Err(e),
            Ok(questions) => Ok(self.header.spec_serialize() + questions),
        }
    }

    /// The message with the given header whose sections start at `pos` in
    /// `data`: as many questions, answers, authority records and additional
    /// records, in this order, as the header's counts say.
    pub open spec fn spec_deserialize(
        header: DnsHeader,
        data: Seq<u8>,
        pos: int,
        all: Seq<u8>,
    ) -> Result<(PacketView, int), DecodeError> {
        match spec_section(question_item(data, all), pos, header.query_count as nat) {
            Err(e) => Err(e),
            Ok((questions, at_answers)) => match spec_section(
                record_item(data, all),
                at_answers,
                header.answer_count as nat,
            ) {
                Err(e) => Err(e),
                Ok((answers, at_authorities)) => match spec_section(
                    record_item(data, all),
                    at_authorities,
                    header.nameserver_count as nat,
                ) {
                    Err(e) => Err(e),
                    Ok((authorities, at_additionals)) => match spec_section(
                        record_item(data, all),
                        at_additionals,
                        header.additional_count as nat,
                    ) {
                        Err(e) => Err(e),
                        Ok((additionals, end)) => Ok(
                            (
                                PacketView { header, questions, answers, authorities, additionals },
                                end,
                            ),
                        ),
                    },
                },
            },
        }
    }

    /// Each count of the header is the length of its section.
    pub open spec fn counts_match(self) -> bool {
        &&& self.questions.len() == self.header.query_count
        &&& self.answers.len() == self.header.answer_count
        &&& self.authorities.len() == self.header.nameserver_count
        &&& self.additionals.len() == self.header.additional_count
    }
}

/// A message that decodes carries the header it was decoded with, and has in
/// each section as many entries as that header counts.
pub proof fn lemma_decoded_counts_match(header: DnsHeader, data: Seq<u8>, pos: int, all: Seq<u8>)
    requires
        PacketView::spec_deserialize(header, data, pos, all) is Ok,
    ensures
        PacketView::spec_deserialize(header, data, pos, all)->Ok_0.0.header == header,
        PacketView::spec_deserialize(header, data, pos, all)->Ok_0.0.counts_match(),
{
    let questions = spec_section(question_item(data, all), pos, header.query_count as nat);
    lemma_section_len(question_item(data, all), pos, header.query_count as nat);
    let answers = spec_section(record_item(data, all), questions->Ok_0.1, header.answer_count as nat);
    lemma_section_len(record_item(data, all), questions->Ok_0.1, header.answer_count as nat);
    let authorities = spec_section(
        record_item(data, all),
        answers->Ok_0.1,
        header.nameserver_count as nat,
    );
    lemma_section_len(record_item(data, all), answers->Ok_0.1, header.nameserver_count as nat);
    lemma_section_len(record_item(data, all), authorities->Ok_0.1, header.additional_count as nat);
}

/// Reads `count` questions that start at `pos` in `data`.
pub fn read_questions(data: &[u8], pos: usize, all: &[u8], count: u16) -> (r: Result<
    (Vec<DnsQuestion>, usize),
    DecodeError,
>)
    ensures
        match r {
            Ok((questions, end)) => spec_section(
                question_item(data@, all@),
                pos as int,
                count as nat,
            ) == Ok::<(Seq<QuestionView>, int), DecodeError>(
                (questions_view(questions@), end as int),
            ),
            Err(e) => spec_section(question_item(data@, all@), pos as int, count as nat) == Err::<
                (Seq<QuestionView>, int),
                DecodeError,
            >(e),
        },
{
    let mut questions: Vec<DnsQuestion> = Vec::new();
    let mut cur: usize = pos;
    let mut i: u16 = 0;
    let ghost item = question_item(data@, all@);
    proof {
        match spec_section(item, pos as int, count as nat) {
            Ok((items, _)) => {
                assert(questions_view(questions@) + items =~= items);
            },
            Err(_) => {},
        }
    }
    while i < count
        invariant
            i <= count,
            item == question_item(data@, all@),
            spec_section(item, pos as int, count as nat) == section_after(
                questions_view(questions@),
                spec_section(item, cur as int, (count - i) as nat),
            ),
        decreases count - i,
    {
        let ghost done = questions_view(questions@);
        match DnsQuestion::deserialize_at(data, cur, all) {
            Ok((question, next)) => {
                proof {
                    match spec_section(item, next as int, (count - i - 1) as nat) {
                        Ok((rest, _)) => {
                            assert(done + (seq![question@] + rest) =~= done.push(question@) + rest);
                        },
                        Err(_) => {},
                    }
                    assert(questions_view(questions@.push(question)) =~= done.push(question@));
                }
                questions.push(question);
                cur = next;
            },
            Err(e) => {
                return Err(e);
            },
        }
        i = i + 1;
    }
    proof {
        assert(questions_view(questions@) + Seq::<QuestionView>::empty() =~= questions_view(
            questions@,
        ));
    }
    Ok((questions, cur))
}

/// Reads `count` records that start at `pos` in `data`.
pub fn read_records(data: &[u8], pos: usize, all: &[u8], count: u16) -> (r: Result<
    (Vec<DnsResourceRecord>, usize),
    DecodeError,
>)
    ensures
        match r {
            Ok((records, end)) => spec_section(
                record_item(data@, all@),
                pos as int,
                count as nat,
            ) == Ok::<(Seq<RecordView>, int), DecodeError>((records_view(records@), end as int)),
            Err(e) => spec_section(record_item(data@, all@), pos as int, count as nat) == Err::<
                (Seq<RecordView>, int),
                DecodeError,
            >(e),
        },
{
    let mut records: Vec<DnsResourceRecord> = Vec::new();
    let mut cur: usize = pos;
    let mut i: u16 = 0;
    let ghost item = record_item(data@, all@);
    proof {
        match spec_section(item, pos as int, count as nat) {
            Ok((items, _)) => {
                assert(records_view(records@) + items =~= items);
            },
            Err(_) => {},
        }
    }
    while i < count
        invariant
            i <= count,
            item == record_item(data@, all@),
            spec_section(item, pos as int, count as nat) == section_after(
                records_view(records@),
                spec_section(item, cur as int, (count - i) as nat),
            ),
        decreases count - i,
    {
        let ghost done = records_view(records@);
        match DnsResourceRecord::deserialize_at(data, cur, all) {
            Ok((record, next)) => {
                proof {
                    match spec_section(item, next as int, (count - i - 1) as nat) {
                        Ok((rest, _)) => {
                            assert(done + (seq![record@] + rest) =~= done.push(record@) + rest);
                        },
                        Err(_) => {},
                    }
                    assert(records_view(records@.push(record)) =~= done.push(record@));
                }
                records.push(record);
                cur = next;
            },
            Err(e) => {
                return Err(e);
            },
        }
        i = i + 1;
    }
    proof {
        assert(records_view(records@) + Seq::<RecordView>::empty() =~= records_view(records@));
    }
    Ok((records, cur))
}

impl DnsPacket {
    /// Appends what is sent of this message to `buffer`: the header, then the
    /// questions. Answers, authority and additional records are not written.
    ///
    /// Fails with `LabelTooLong`, and leaves `buffer` as it was, exactly where
    /// a question's name has a label of more than 255 bytes.
    pub fn serialize(&self, buffer: &mut Vec<u8>) -> (r: Result<(), EncodeError>)
        ensures
            match r {
                Ok(()) => self@.spec_serialize() is Ok && final(buffer)@ == old(buffer)@
                    + self@.spec_serialize()->Ok_0,
                Err(e) => self@.spec_serialize() == Err::<Seq<u8>, EncodeError>(e)
                    && final(buffer)@ == old(buffer)@,
            },
    {
        let mut body: Vec<u8> = Vec::new();
        let ghost all = questions_view(self.questions@);
        let mut i: usize = 0;
        proof {
            assert(all.subrange(0, all.len() as int) =~= all);
            match spec_serialize_questions(all) {
                Ok(bytes) => {
                    assert(body@ + bytes =~= bytes);
                },
                Err(_) => {},
            }
        }
        while i < self.questions.len()
            invariant
                i <= self.questions@.len(),
                all == questions_view(self.questions@),
                spec_serialize_questions(all) == (match spec_serialize_questions(
                    all.subrange(i as int, all.len() as int),
                ) {
                    Ok(rest) => Ok::<Seq<u8>, EncodeError>(body@ + rest),
                    Err(e) => Err(e),
                }),
            decreases self.questions@.len() - i,
        {
            let ghost before = body@;
            let ghost tail = all.subrange(i as int, all.len() as int);
            proof {
                assert(tail[0] == self.questions@[i as int]@);
                assert(tail.drop_first() =~= all.subrange(i as int + 1, all.len() as int));
            }
            match self.questions[i].serialize(&mut body) {
                Ok(()) => {
                    proof {
                        match spec_serialize_questions(tail.drop_first()) {
                            Ok(rest) => {
                                assert(before + (tail[0].spec_serialize()->Ok_0 + rest) =~= body@
                                    + rest);
                            },
                            Err(_) => {},
                        }
                    }
                },
                Err(e) => {
                    return Err(e);
                },
            }
            i = i + 1;
        }
        proof {
            assert(all.subrange(i as int, all.len() as int) =~= Seq::<QuestionView>::empty());
            assert(body@ + Seq::<u8>::empty() =~= body@);
        }
        let ghost start = buffer@;
        self.header.serialize(buffer);
        push_range(buffer, body.as_slice(), 0, body.len());
        proof {
            assert(body@.subrange(0, body@.len() as int) =~= body@);
            assert(buffer@ =~= start + (self.header.spec_serialize() + body@));
        }
        Ok(())
    }

    /// Decodes the sections of a message whose header was read already: they
    /// start at `pos` in `data`.
    pub fn deserialize_at(header: DnsHeader, data: &[u8], pos: usize, all: &[u8]) -> (r: Result<
        (DnsPacket, usize),
        DecodeError,
    >)
        ensures
            match r {
                Ok((packet, end)) => PacketView::spec_deserialize(
                    header,
                    data@,
                    pos as int,
                    all@,
                ) == Ok::<(PacketView, int), DecodeError>((packet@, end as int)),
                Err(e) => PacketView::spec_deserialize(header, data@, pos as int, all@) == Err::<
                    (PacketView, int),
                    DecodeError,
                >(e),
            },
    {
        let (questions, at_answers) = match read_questions(data, pos, all, header.query_count) {
            Ok(v) => v,
            Err(e) => {
                return Err(e);
            },
        };
        let (answers, at_authorities) = match read_records(
            data,
            at_answers,
            all,
            header.answer_count,
        ) {
            Ok(v) => v,
            Err(e) => {
                return Err(e);
            },
        };
        let (authorities, at_additionals) = match read_records(
            data,
            at_authorities,
            all,
            header.nameserver_count,
        ) {
            Ok(v) => v,
            Err(e) => {
                return Err(e);
            },
        };
        let (additionals, end) = match read_records(
            data,
            at_additionals,
            all,
            header.additional_count,
        ) {
            Ok(v) => v,
            Err(e) => {
                return Err(e);
            },
        };
        Ok((DnsPacket { header, questions, answers, authorities, additionals }, end))
    }

    /// Reads the sections of a message at the cursor into `self`, which takes
    /// `header` as its header. Pointers are resolved against `all_data`, the
    /// whole message. Where a section cannot be read in full, the call fails
    /// and neither `self` nor the cursor changes.
    pub fn deserialize(&mut self, header: DnsHeader, cursor: &mut Cursor, all_data: &[u8]) -> (r:
        Result<(), DecodeError>)
        ensures
            final(cursor).data@ == old(cursor).data@,
            match r {
                Ok(()) => PacketView::spec_deserialize(
                    header,
                    old(cursor).data@,
                    old(cursor).position as int,
                    all_data@,
                ) == Ok::<(PacketView, int), DecodeError>(
                    (final(self)@, final(cursor).position as int),
                ),
                Err(e) => PacketView::spec_deserialize(
                    header,
                    old(cursor).data@,
                    old(cursor).position as int,
                    all_data@,
                ) == Err::<(PacketView, int), DecodeError>(e) && *final(self) == *old(self)
                    && final(cursor).position == old(cursor).position,
            },
    {
        match DnsPacket::deserialize_at(header, cursor.data, cursor.position, all_data) {
            Ok((packet, end)) => {
                *self = packet;
                cursor.position = end;
                Ok(())
            },
            Err(e) => Err(e),
        }
    }

    /// Reads the sections of a message at the cursor. Where that fails, the
    /// cursor stays.
    pub fn deserialize_from(header: DnsHeader, cursor: &mut Cursor, all_data: &[u8]) -> (r: Result<
        DnsPacket,
        DecodeError,
    >)
        ensures
            final(cursor).data@ == old(cursor).data@,
            match r {
                Ok(packet) => PacketView::spec_deserialize(
                    header,
                    old(cursor).data@,
                    old(cursor).position as int,
                    all_data@,
                ) == Ok::<(PacketView, int), DecodeError>(
                    (packet@, final(cursor).position as int),
                ),
                Err(e) => PacketView::spec_deserialize(
                    header,
                    old(cursor).data@,
                    old(cursor).position as int,
                    all_data@,
                ) == Err::<(PacketView, int), DecodeError>(e) && final(cursor).position == old(
                    cursor,
                ).position,
            },
    {
        match DnsPacket::deserialize_at(header, cursor.data, cursor.position, all_data) {
            Ok((packet, end)) => {
                cursor.position = end;
                Ok(packet)
            },
            Err(e) => Err(e),
        }
    }
}

impl Default for DnsPacket {
    /// The message with the default header and four empty sections.
    fn default() -> (packet: DnsPacket)
        ensures
            packet.header == DnsHeader::spec_default(),
            packet.questions@.len() == 0,
            packet.answers@.len() == 0,
            packet.authorities@.len() == 0,
            packet.additionals@.len() == 0,
    {
        DnsPacket {
            header: DnsHeader::default(),
            questions: Vec::new(),
            answers: Vec::new(),
            authorities: Vec::new(),
            additionals: Vec::new(),
        }
    }
}

/// Every question's name is made of labels of 1 to 63 bytes each.
pub open spec fn names_fit(questions: Seq<QuestionView>) -> bool {
    forall|i: int|
        0 <= i < questions.len() ==> labels_fit(encode_utf8(#[trigger] questions[i].domain_name))
}

/// Questions whose names are made of labels of 1 to 63 bytes each have a wire
/// form, and that wire form, wherever it stands in a buffer, decodes as a
/// section to these questions and ends right behind them.
pub proof fn lemma_questions_round_trip(
    questions: Seq<QuestionView>,
    before: Seq<u8>,
    after: Seq<u8>,
    all: Seq<u8>,
)
    requires
        names_fit(questions),
    ensures
        spec_serialize_questions(questions) is Ok,
        spec_section(
            question_item(before + spec_serialize_questions(questions)->Ok_0 + after, all),
            before.len() as int,
            questions.len(),
        ) == Ok::<(Seq<QuestionView>, int), DecodeError>(
            (questions, (before.len() + spec_serialize_questions(questions)->Ok_0.len()) as int),
        ),
    decreases questions.len(),
{
    if questions.len() == 0 {
        assert(questions =~= Seq::<QuestionView>::empty());
    } else {
        let first = questions[0];
        let others = questions.drop_first();
        assert(names_fit(others)) by {
            assert forall|i: int| 0 <= i < others.len() implies labels_fit(
                encode_utf8(#[trigger] others[i].domain_name),
            ) by {
                assert(others[i] == questions[i + 1]);
            }
        }
        lemma_questions_round_trip(others, before + first.spec_serialize()->Ok_0, after, all);
        let head = first.spec_serialize()->Ok_0;
        let tail = spec_serialize_questions(others)->Ok_0;
        lemma_question_round_trip(first, before, tail + after, all);
        let data = before + (head + tail) + after;
        assert(data =~= before + head + (tail + after));
        assert(data =~= (before + head) + tail + after);
        assert(seq![first] + others =~= questions);
    }
}

} // verus!
