//! Completion of a record: the checklist of the entries that a record must
//! have, and the loop that asks a callback for each entry that is missing.

use vstd::prelude::*;
use crate::record::{Data, DataView, Dep11, Dep11View, Field};
use crate::text::same_text;

verus! {

/// The entries of the checklist, in the order in which they are asked for.
#[derive(Clone, Copy, Debug, PartialEq, Eq, Structural)]
pub enum Entry {
    Type,
    Id,
    Package,
    Summary,
    Description,
    DeveloperName,
    Categories,
    Keywords,
    Homepage,
    Icon,
    Screenshots,
    Mimetypes,
    Binaries,
}

impl Entry {
    /// The slot in which an entry lives.
    pub open spec fn spec_field(self) -> Field {
        match self {
            Entry::Type => Field::Kind,
            Entry::Id => Field::Id,
            Entry::Package => Field::Package,
            Entry::Summary => Field::Summary,
            Entry::Description => Field::Description,
            Entry::DeveloperName => Field::DeveloperName,
            Entry::Categories => Field::Categories,
            Entry::Keywords => Field::Keywords,
            Entry::Homepage => Field::Url,
            Entry::Icon => Field::Icon,
            Entry::Screenshots => Field::Screenshots,
            Entry::Mimetypes => Field::Provides,
            Entry::Binaries => Field::Provides,
        }
    }

    /// The slot in which an entry lives.
    #[verifier::when_used_as_spec(spec_field)]
    pub fn field(self) -> (field: Field)
        ensures
            field == self.spec_field(),
    {
        match self {
            Entry::Type => Field::Kind,
            Entry::Id => Field::Id,
            Entry::Package => Field::Package,
            Entry::Summary => Field::Summary,
            Entry::Description => Field::Description,
            Entry::DeveloperName => Field::DeveloperName,
            Entry::Categories => Field::Categories,
            Entry::Keywords => Field::Keywords,
            Entry::Homepage => Field::Url,
            Entry::Icon => Field::Icon,
            Entry::Screenshots => Field::Screenshots,
            Entry::Mimetypes => Field::Provides,
            Entry::Binaries => Field::Provides,
        }
    }

    /// The place of an entry in the checklist.
    pub open spec fn rank(self) -> nat {
        match self {
            Entry::Type => 0,
            Entry::Id => 1,
            Entry::Package => 2,
            Entry::Summary => 3,
            Entry::Description => 4,
            Entry::DeveloperName => 5,
            Entry::Categories => 6,
            Entry::Keywords => 7,
            Entry::Homepage => 8,
            Entry::Icon => 9,
            Entry::Screenshots => 10,
            Entry::Mimetypes => 11,
            Entry::Binaries => 12,
        }
    }

    /// The words with which an entry is asked for.
    pub open spec fn prompt_text(self) -> Seq<char> {
        match self {
            Entry::Type => "Please provide a `Type`."@,
            Entry::Id => "Please provide an `Id`."@,
            Entry::Package => "Please provide a `Package`."@,
            Entry::Summary => "Please provide a `Summary`."@,
            Entry::Description => "Please provide a `Description`."@,
            Entry::DeveloperName => "Please provide a `DeveloperName`."@,
            Entry::Categories => "Please provide `Categories`."@,
            Entry::Keywords => "Please provide `Keywords`."@,
            Entry::Homepage => "Please provide `homepage`."@,
            Entry::Icon => "Please provide `Icon`(s)."@,
            Entry::Screenshots => "Please provide `Screenshots`."@,
            Entry::Mimetypes => "Please provide `mimetypes`."@,
            Entry::Binaries => "Please provide `binaries`."@,
        }
    }

    /// The words with which an entry is asked for.
    pub fn prompt(self) -> (words: &'static str)
        ensures
            words@ == self.prompt_text(),
    {
        match self {
            Entry::Type => "Please provide a `Type`.",
            Entry::Id => "Please provide an `Id`.",
            Entry::Package => "Please provide a `Package`.",
            Entry::Summary => "Please provide a `Summary`.",
            Entry::Description => "Please provide a `Description`.",
            Entry::DeveloperName => "Please provide a `DeveloperName`.",
            Entry::Categories => "Please provide `Categories`.",
            Entry::Keywords => "Please provide `Keywords`.",
            Entry::Homepage => "Please provide `homepage`.",
            Entry::Icon => "Please provide `Icon`(s).",
            Entry::Screenshots => "Please provide `Screenshots`.",
            Entry::Mimetypes => "Please provide `mimetypes`.",
            Entry::Binaries => "Please provide `binaries`.",
        }
    }

    /// Whether a slot lacks an entry: the slot is of the entry's kind, and
    /// the scalar is absent or the list is empty.
    pub open spec fn missing_in(self, slot: DataView) -> bool {
        match self {
            Entry::Type => slot == DataView::Type(None),
            Entry::Id => slot == DataView::Id(None),
            Entry::Package => slot == DataView::Package(None),
            Entry::Summary => slot == (DataView::Summary { c: None }),
            Entry::Description => slot == (DataView::Description { c: None }),
            Entry::DeveloperName => slot == (DataView::DeveloperName { c: None }),
            Entry::Categories => slot matches DataView::Categories(v) && v.len() == 0,
            Entry::Keywords => slot matches DataView::Keywords(v) && v.len() == 0,
            Entry::Homepage => slot matches DataView::Url { homepage, .. } && homepage is None,
            Entry::Icon => slot matches DataView::Icon { cached } && cached.len() == 0,
            Entry::Screenshots => slot matches DataView::Screenshots(v) && v.len() == 0,
            Entry::Mimetypes => slot matches DataView::Provides { mimetypes, .. }
                && mimetypes.len() == 0,
            Entry::Binaries => slot matches DataView::Provides { binaries, .. } && binaries.len()
                == 0,
        }
    }

    /// Whether a slot lacks an entry.
    pub fn is_missing_in(self, slot: &Data) -> (missing: bool)
        ensures
            missing == self.missing_in(slot@),
    {
        match self {
            Entry::Type => match slot {
                Data::Type(None) => true,
                _ => false,
            },
            Entry::Id => match slot {
                Data::Id(None) => true,
                _ => false,
            },
            Entry::Package => match slot {
                Data::Package(None) => true,
                _ => false,
            },
            Entry::Summary => match slot {
                Data::Summary { c: None } => true,
                _ => false,
            },
            Entry::Description => match slot {
                Data::Description { c: None } => true,
                _ => false,
            },
            Entry::DeveloperName => match slot {
                Data::DeveloperName { c: None } => true,
                _ => false,
            },
            Entry::Categories => match slot {
                Data::Categories(v) => v.len() == 0,
                _ => false,
            },
            Entry::Keywords => match slot {
                Data::Keywords(v) => v.len() == 0,
                _ => false,
            },
            Entry::Homepage => match slot {
                Data::Url { homepage: None, .. } => true,
                _ => false,
            },
            Entry::Icon => match slot {
                Data::Icon { cached } => cached.len() == 0,
                _ => false,
            },
            Entry::Screenshots => match slot {
                Data::Screenshots(v) => v.len() == 0,
                _ => false,
            },
            Entry::Mimetypes => match slot {
                Data::Provides { mimetypes, .. } => mimetypes.len() == 0,
                _ => false,
            },
            Entry::Binaries => match slot {
                Data::Provides { binaries, .. } => binaries.len() == 0,
                _ => false,
            },
        }
    }
}

/// Whether an answer is what the callback owes: asked, with these words, for
/// an entry that the slot lacked, it has left the slot with that entry.
pub open spec fn answered(words: Seq<char>, before: DataView, after: DataView) -> bool {
    forall|entry: Entry|
        words == entry.prompt_text() && #[trigger] entry.missing_in(before) ==> !entry.missing_in(
            after,
        )
}

/// Whether an answer for the binaries has left the mimetypes that the slot
/// had.
pub open spec fn mimetypes_kept(words: Seq<char>, before: DataView, after: DataView) -> bool {
    words == Entry::Binaries.prompt_text() && Entry::Binaries.missing_in(before)
        && Entry::Mimetypes.missing_in(after) ==> Entry::Mimetypes.missing_in(before)
}

/// Whether, asked with these words for one entry, the answer has brought it.
fn brought(entry: Entry, words: &str, before: &Data, after: &Data) -> (ok: bool)
    ensures
        ok == (words@ == entry.prompt_text() && entry.missing_in(before@) ==> !entry.missing_in(
            after@,
        )),
{
    !same_text(words, entry.prompt()) || !entry.is_missing_in(before) || !entry.is_missing_in(
        after,
    )
}

/// Whether an answer is what the callback owes.
pub fn is_answered(words: &str, before: &Data, after: &Data) -> (ok: bool)
    ensures
        ok == answered(words@, before@, after@),
{
    let each = brought(Entry::Type, words, before, after) && brought(
        Entry::Id,
        words,
        before,
        after,
    ) && brought(Entry::Package, words, before, after) && brought(
        Entry::Summary,
        words,
        before,
        after,
    ) && brought(Entry::Description, words, before, after) && brought(
        Entry::DeveloperName,
        words,
        before,
        after,
    ) && brought(Entry::Categories, words, before, after) && brought(
        Entry::Keywords,
        words,
        before,
        after,
    ) && brought(Entry::Homepage, words, before, after) && brought(
        Entry::Icon,
        words,
        before,
        after,
    ) && brought(Entry::Screenshots, words, before, after) && brought(
        Entry::Mimetypes,
        words,
        before,
        after,
    ) && brought(Entry::Binaries, words, before, after);
    proof {
        if each {
            assert forall|entry: Entry|
                words@ == entry.prompt_text() && #[trigger] entry.missing_in(
                    before@,
                ) implies !entry.missing_in(after@) by {
                match entry {
                    Entry::Type => {},
                    Entry::Id => {},
                    Entry::Package => {},
                    Entry::Summary => {},
                    Entry::Description => {},
                    Entry::DeveloperName => {},
                    Entry::Categories => {},
                    Entry::Keywords => {},
                    Entry::Homepage => {},
                    Entry::Icon => {},
                    Entry::Screenshots => {},
                    Entry::Mimetypes => {},
                    Entry::Binaries => {},
                }
            }
        }
    }
    each
}

impl Dep11View {
    /// Whether the record lacks an entry.
    pub open spec fn lacks(self, entry: Entry) -> bool {
        entry.missing_in(self.slot(entry.spec_field()))
    }

    /// Whether the record lacks nothing.
    pub open spec fn complete(self) -> bool {
        forall|entry: Entry| !self.lacks(entry)
    }

    /// The first entry of the checklist that the record lacks.
    pub open spec fn first_missing(self) -> Option<Entry> {
        if self.lacks(Entry::Type) {
            Some(Entry::Type)
        } else if self.lacks(Entry::Id) {
            Some(Entry::Id)
        } else if self.lacks(Entry::Package) {
            Some(Entry::Package)
        } else if self.lacks(Entry::Summary) {
            Some(Entry::Summary)
        } else if self.lacks(Entry::Description) {
            Some(Entry::Description)
        } else if self.lacks(Entry::DeveloperName) {
            Some(Entry::DeveloperName)
        } else if self.lacks(Entry::Categories) {
            Some(Entry::Categories)
        } else if self.lacks(Entry::Keywords) {
            Some(Entry::Keywords)
        } else if self.lacks(Entry::Homepage) {
            Some(Entry::Homepage)
        } else if self.lacks(Entry::Icon) {
            Some(Entry::Icon)
        } else if self.lacks(Entry::Screenshots) {
            Some(Entry::Screenshots)
        } else if self.lacks(Entry::Mimetypes) {
            Some(Entry::Mimetypes)
        } else if self.lacks(Entry::Binaries) {
            Some(Entry::Binaries)
        } else {
            None
        }
    }
}

impl Dep11 {
    /// The first entry of the checklist that the record lacks.
    pub fn first_missing(&self) -> (entry: Option<Entry>)
        ensures
            entry == self@.first_missing(),
    {
        if Entry::Type.is_missing_in(&self.kind) {
            Some(Entry::Type)
        } else if Entry::Id.is_missing_in(&self.id) {
            Some(Entry::Id)
        } else if Entry::Package.is_missing_in(&self.package) {
            Some(Entry::Package)
        } else if Entry::Summary.is_missing_in(&self.summary) {
            Some(Entry::Summary)
        } else if Entry::Description.is_missing_in(&self.description) {
            Some(Entry::Description)
        } else if Entry::DeveloperName.is_missing_in(&self.developer_name) {
            Some(Entry::DeveloperName)
        } else if Entry::Categories.is_missing_in(&self.categories) {
            Some(Entry::Categories)
        } else if Entry::Keywords.is_missing_in(&self.keywords) {
            Some(Entry::Keywords)
        } else if Entry::Homepage.is_missing_in(&self.url) {
            Some(Entry::Homepage)
        } else if Entry::Icon.is_missing_in(&self.icon) {
            Some(Entry::Icon)
        } else if Entry::Screenshots.is_missing_in(&self.screenshots) {
            Some(Entry::Screenshots)
        } else if Entry::Mimetypes.is_missing_in(&self.provides) {
            Some(Entry::Mimetypes)
        } else if Entry::Binaries.is_missing_in(&self.provides) {
            Some(Entry::Binaries)
        } else {
            None
        }
    }
}

impl Dep11View {
    /// One where the record lacks the entry, else nothing.
    pub open spec fn gap(self, entry: Entry) -> nat {
        if self.lacks(entry) {
            1
        } else {
            0
        }
    }

    /// A bound on the questions that it takes to complete the record: one
    /// for each entry that it lacks, and one more for the mimetypes, whose
    /// answer may leave the binaries to be asked for.
    pub open spec fn gaps(self) -> nat {
        self.gap(Entry::Type) + self.gap(Entry::Id) + self.gap(Entry::Package) + self.gap(
            Entry::Summary,
        ) + self.gap(Entry::Description) + self.gap(Entry::DeveloperName) + self.gap(
            Entry::Categories,
        ) + self.gap(Entry::Keywords) + self.gap(Entry::Homepage) + self.gap(Entry::Icon)
            + self.gap(Entry::Screenshots) + 2 * self.gap(Entry::Mimetypes) + self.gap(
            Entry::Binaries,
        )
    }
}

/// What a slot held before a question and what it held after the answer.
ghost struct Answer {
    pub before: Data,
    pub after: Data,
}

/// Whether `answers` accounts for the way from the record `start` to the
/// record `now`: a slot whose entries were not asked for is as it was, and
/// each question was put once, for an entry that its slot lacked, on what the
/// slot held then, and was answered with that entry.
spec fn tracks(start: Dep11, now: Dep11, answers: Map<Entry, Answer>) -> bool {
    let mimetypes = Entry::Mimetypes;
    let binaries = Entry::Binaries;
    &&& now.held(Field::Name) == start.held(Field::Name)
    &&& now.held(Field::ProjectLicense) == start.held(Field::ProjectLicense)
    &&& forall|entry: Entry|
        entry.spec_field() != Field::Provides ==> if #[trigger] answers.dom().contains(entry) {
            &&& start@.lacks(entry)
            &&& !now@.lacks(entry)
            &&& answers[entry].before == start.held(entry.spec_field())
            &&& answers[entry].after == now.held(entry.spec_field())
        } else {
            now.held(entry.spec_field()) == start.held(entry.spec_field())
        }
    &&& answers.dom().contains(mimetypes) ==> {
        &&& start@.lacks(mimetypes)
        &&& !now@.lacks(mimetypes)
        &&& answers[mimetypes].before == start.provides
    }
    &&& answers.dom().contains(binaries) ==> {
        &&& !now@.lacks(mimetypes)
        &&& !now@.lacks(binaries)
        &&& binaries.missing_in(answers[binaries].before@)
        &&& answers[binaries].after == now.provides
        &&& answers[binaries].before == if answers.dom().contains(mimetypes) {
            answers[mimetypes].after
        } else {
            start.provides
        }
        &&& !answers.dom().contains(mimetypes) ==> !start@.lacks(mimetypes)
    }
    &&& !answers.dom().contains(binaries) ==> now.provides == if answers.dom().contains(
        mimetypes,
    ) {
        answers[mimetypes].after
    } else {
        start.provides
    }
}

/// The value of a slot is the slot of the value.
proof fn lemma_held_view(record: Dep11, field: Field)
    ensures
        record.held(field)@ == record@.slot(field),
{
}

/// One question, put for the first entry that the record lacks and answered
/// as the callback owes it, keeps the account and brings the record nearer
/// to completion.
proof fn lemma_question(
    start: Dep11,
    before: Dep11,
    after: Dep11,
    answers: Map<Entry, Answer>,
    entry: Entry,
)
    requires
        tracks(start, before, answers),
        before@.first_missing() == Some(entry),
        forall|field: Field|
            field != entry.spec_field() ==> after.held(field) == before.held(field),
        !entry.missing_in(after.held(entry.spec_field())@),
        entry == Entry::Binaries ==> !Entry::Mimetypes.missing_in(after.provides@),
    ensures
        tracks(
            start,
            after,
            answers.insert(
                entry,
                Answer {
                    before: before.held(entry.spec_field()),
                    after: after.held(entry.spec_field()),
                },
            ),
        ),
        after@.gaps() < before@.gaps(),
{
    let field = entry.spec_field();
    let next = answers.insert(
        entry,
        Answer { before: before.held(field), after: after.held(field) },
    );
    assert forall|other: Entry| other.spec_field() != field implies after@.lacks(other)
        == before@.lacks(other) by {
        lemma_held_view(after, other.spec_field());
        lemma_held_view(before, other.spec_field());
    }
    lemma_held_view(after, field);
    lemma_held_view(before, field);
    assert(before@.lacks(entry));
    assert(!after@.lacks(entry));
    assert(after.held(Field::Name) == before.held(Field::Name));
    assert(after.held(Field::ProjectLicense) == before.held(Field::ProjectLicense));
    if field != Field::Provides {
        assert(after.held(Field::Provides) == before.held(Field::Provides));
        assert(!answers.dom().contains(entry)) by {
            if answers.dom().contains(entry) {
                assert(!before@.lacks(entry));
            }
        }
        assert forall|other: Entry| other.spec_field() != Field::Provides implies if next.dom().contains(
            other,
        ) {
            &&& start@.lacks(other)
            &&& !after@.lacks(other)
            &&& next[other].before == start.held(other.spec_field())
            &&& next[other].after == after.held(other.spec_field())
        } else {
            after.held(other.spec_field()) == start.held(other.spec_field())
        } by {
            if other == entry {
                assert(before.held(field) == start.held(field));
                lemma_held_view(start, field);
            } else {
                assert(other.spec_field() != field);
                assert(answers.dom().contains(other) == next.dom().contains(other));
                assert(after.held(other.spec_field()) == before.held(other.spec_field()));
            }
        }
    } else {
        assert forall|other: Entry| other.spec_field() != Field::Provides implies if next.dom().contains(
            other,
        ) {
            &&& start@.lacks(other)
            &&& !after@.lacks(other)
            &&& next[other].before == start.held(other.spec_field())
            &&& next[other].after == after.held(other.spec_field())
        } else {
            after.held(other.spec_field()) == start.held(other.spec_field())
        } by {
            assert(answers.dom().contains(other) == next.dom().contains(other));
            assert(after.held(other.spec_field()) == before.held(other.spec_field()));
        }
        lemma_held_view(start, Field::Provides);
    }
}

/// Once the first entry that a record lacked is there, the record has every
/// entry up to that one.
proof fn lemma_question_order(before: Dep11, after: Dep11, entry: Entry)
    requires
        before@.first_missing() == Some(entry),
        forall|field: Field|
            field != entry.spec_field() ==> after.held(field) == before.held(field),
        !entry.missing_in(after.held(entry.spec_field())@),
        entry == Entry::Binaries ==> !Entry::Mimetypes.missing_in(after.provides@),
    ensures
        forall|other: Entry| other.rank() <= entry.rank() ==> !after@.lacks(other),
{
    law_first_missing_is_first(before@);
    assert forall|other: Entry| other.rank() <= entry.rank() implies !after@.lacks(other) by {
        lemma_held_view(after, other.spec_field());
        lemma_held_view(before, other.spec_field());
        if other != entry {
            assert(!before@.lacks(other));
            if other.spec_field() != entry.spec_field() {
                assert(after.held(other.spec_field()) == before.held(other.spec_field()));
            }
        }
    }
}

/// Two records that follow one another.
pub ghost struct Change {
    pub before: Dep11,
    pub after: Dep11,
}

/// The record at a place in a sequence of records, and the one behind it.
pub open spec fn change(records: Seq<Dep11>, at: int) -> Change {
    Change { before: records[at], after: records[at + 1] }
}

/// What the slot that a question is about holds in a record: the slot of
/// the first entry that the record `asked` lacks, as the record `of` has it.
pub open spec fn asked_slot(asked: Dep11, of: Dep11) -> Data {
    of.held(asked@.first_missing()->0.spec_field())
}

/// Whether `after` can come of `before` by one question: `before` lacks an
/// entry, and the two differ at most in the slot of the first entry that it
/// lacks.
pub open spec fn question(before: Dep11, after: Dep11) -> bool {
    &&& before@.first_missing() is Some
    &&& forall|field: Field|
        field != before@.first_missing()->0.spec_field() ==> after.held(field) == before.held(
            field,
        )
}

/// The first entry that a record lacks is one that it lacks.
proof fn lemma_first_missing_lacks(record: Dep11View)
    ensures
        record.first_missing() matches Some(entry) ==> record.lacks(entry),
{
}

/// The checklist is gone through in its order. The first entry that a
/// record lacks is one that it lacks, and it lacks none that stands before
/// that one; it lacks no first entry exactly when it is complete.
pub proof fn law_first_missing_is_first(record: Dep11View)
    ensures
        match record.first_missing() {
            Some(entry) => record.lacks(entry) && forall|other: Entry|
                other.rank() < entry.rank() ==> !record.lacks(other),
            None => record.complete(),
        },
        record.complete() ==> record.first_missing() is None,
{
    match record.first_missing() {
        Some(entry) => {},
        None => {
            assert forall|entry: Entry| !record.lacks(entry) by {
                match entry {
                    Entry::Type => {},
                    Entry::Id => {},
                    Entry::Package => {},
                    Entry::Summary => {},
                    Entry::Description => {},
                    Entry::DeveloperName => {},
                    Entry::Categories => {},
                    Entry::Keywords => {},
                    Entry::Homepage => {},
                    Entry::Icon => {},
                    Entry::Screenshots => {},
                    Entry::Mimetypes => {},
                    Entry::Binaries => {},
                }
            }
        },
    }
}

impl Dep11 {
    /// Asks the callback for an entry that the record lacks: one call, with
    /// the entry's words, on the entry's slot and on no other.
    pub fn ask<F: FnMut(&str, &mut Data)>(&mut self, entry: Entry, callback: &mut F)
        requires
            old(self)@.lacks(entry),
            forall|words: &str, slot: &mut Data|
                words@ == entry.prompt_text() && entry.missing_in((*slot)@) ==> call_requires(
                    *old(callback),
                    (words, slot),
                ),
        ensures
            *final(callback) == *old(callback),
            exists|words: &str, slot: &mut Data|
                {
                    &&& words@ == entry.prompt_text()
                    &&& #[trigger] call_ensures(*old(callback), (words, slot), ())
                    &&& *slot == old(self).held(entry.spec_field())
                    &&& *final(slot) == final(self).held(entry.spec_field())
                },
            forall|field: Field|
                field != entry.spec_field() ==> final(self).held(field) == old(self).held(field),
    {
        broadcast use vstd::function::group_function_axioms;

        let words = entry.prompt();
        match entry {
            Entry::Type => callback(words, &mut self.kind),
            Entry::Id => callback(words, &mut self.id),
            Entry::Package => callback(words, &mut self.package),
            Entry::Summary => callback(words, &mut self.summary),
            Entry::Description => callback(words, &mut self.description),
            Entry::DeveloperName => callback(words, &mut self.developer_name),
            Entry::Categories => callback(words, &mut self.categories),
            Entry::Keywords => callback(words, &mut self.keywords),
            Entry::Homepage => callback(words, &mut self.url),
            Entry::Icon => callback(words, &mut self.icon),
            Entry::Screenshots => callback(words, &mut self.screenshots),
            Entry::Mimetypes => callback(words, &mut self.provides),
            Entry::Binaries => callback(words, &mut self.provides),
        }
    }

    /// Completes the record with a callback that owes nothing, in at most
    /// `tries` questions: as long as the record lacks an entry, the callback
    /// is asked for the first one that it lacks, and the checklist is gone
    /// through from its top again. An entry that an answer did not bring, or
    /// that a later answer took away, is asked for again.
    ///
    /// The result is `Ok` where the record is complete, and else the entry
    /// that was to be asked for when the questions were used up. Beside it
    /// stand the records that there were, from the first to the last: each
    /// but the last lacked an entry, and the next is what one call of the
    /// callback, asked for the first such entry, made of it.
    pub fn completed_within<F: FnMut(&str, &mut Data)>(
        &mut self,
        callback: F,
        tries: usize,
    ) -> (end: (Result<(), Entry>, Ghost<Seq<Dep11>>))
        requires
            forall|entry: Entry, words: &str, slot: &mut Data|
                words@ == entry.prompt_text() && entry.missing_in((*slot)@) ==> call_requires(
                    callback,
                    (words, slot),
                ),
        ensures
            1 <= end.1@.len() <= tries + 1,
            end.1@[0] == *old(self),
            end.1@.last() == *final(self),
            forall|i: int|
                #![trigger change(end.1@, i)]
                0 <= i < end.1@.len() - 1 ==> question(
                    change(end.1@, i).before,
                    change(end.1@, i).after,
                ) && exists|words: &str, slot: &mut Data|
                    #![trigger call_ensures(callback, (words, slot), ())]
                    {
                        &&& words@ == change(end.1@, i).before@.first_missing()->0.prompt_text()
                        &&& call_ensures(callback, (words, slot), ())
                        &&& *slot == asked_slot(change(end.1@, i).before, change(end.1@, i).before)
                        &&& *final(slot) == asked_slot(
                            change(end.1@, i).before,
                            change(end.1@, i).after,
                        )
                    },
            match end.0 {
                Ok(_) => final(self)@.complete(),
                Err(entry) => final(self)@.first_missing() == Some(entry) && end.1@.len() == tries
                    + 1,
            },
    {
        let ghost put = callback;
        let mut asker = callback;
        let ghost mut states: Seq<Dep11> = seq![*self];
        let mut calls: usize = 0;
        let mut result: Result<(), Entry> = Ok(());
        loop
            invariant
                asker == put,
                put == callback,
                calls <= tries,
                states.len() == calls + 1,
                states[0] == *old(self),
                states.last() == *self,
                forall|entry: Entry, words: &str, slot: &mut Data|
                    words@ == entry.prompt_text() && entry.missing_in((*slot)@) ==> call_requires(
                        put,
                        (words, slot),
                    ),
                forall|i: int|
                    #![trigger change(states, i)]
                    0 <= i < states.len() - 1 ==> question(
                        change(states, i).before,
                        change(states, i).after,
                    ) && exists|words: &str, slot: &mut Data|
                        #![trigger call_ensures(put, (words, slot), ())]
                        {
                            &&& words@ == change(states, i).before@.first_missing()->0.prompt_text()
                            &&& call_ensures(put, (words, slot), ())
                            &&& *slot == asked_slot(change(states, i).before, change(states, i).before)
                            &&& *final(slot) == asked_slot(
                                change(states, i).before,
                                change(states, i).after,
                            )
                        },
            ensures
                match result {
                    Ok(_) => self@.first_missing() is None,
                    Err(entry) => self@.first_missing() == Some(entry) && calls == tries,
                },
            decreases tries - calls,
        {
            match self.first_missing() {
                None => {
                    result = Ok(());
                    break ;
                },
                Some(entry) => {
                    if calls == tries {
                        result = Err(entry);
                        break ;
                    }
                    let ghost before = *self;
                    let ghost sofar = states;
                    proof {
                        lemma_first_missing_lacks(self@);
                    }
                    self.ask(entry, &mut asker);
                    calls += 1;
                    proof {
                        states = sofar.push(*self);
                        assert(question(before, *self));
                        assert forall|i: int|
                            #![trigger change(states, i)]
                            0 <= i < states.len() - 1 implies question(
                                change(states, i).before,
                                change(states, i).after,
                            ) && exists|words: &str, slot: &mut Data|
                                #![trigger call_ensures(put, (words, slot), ())]
                                {
                                    &&& words@ == change(states, i).before@.first_missing()->0.prompt_text()
                                    &&& call_ensures(put, (words, slot), ())
                                    &&& *slot == asked_slot(change(states, i).before, change(states, i).before)
                                    &&& *final(slot) == asked_slot(
                                        change(states, i).before,
                                        change(states, i).after,
                                    )
                            } by {
                            if i < sofar.len() - 1 {
                                assert(change(states, i) == change(sofar, i));
                            } else {
                                assert(change(states, i) == Change { before, after: *self });
                            }
                        }
                    }
                },
            }
        }
        proof {
            law_first_missing_is_first(self@);
        }
        (result, Ghost(states))
    }

    /// Completes the record: as long as it lacks an entry, the callback is
    /// asked for the first one that it lacks, in the order of the checklist.
    /// The result lists the entries that were asked for, in the order of the
    /// questions.
    ///
    /// The callback can be asked for every entry that a slot lacks, and each
    /// of its answers is what it owes ([`answered`]). One thing more is asked
    /// of it, without which the questions need not come to an end: an answer
    /// for the binaries leaves the mimetypes that the slot had
    /// ([`mimetypes_kept`]). For a callback that owes nothing, there is
    /// [`Dep11::completed_within`].
    ///
    /// Each entry is asked for at most once, in the order of the checklist,
    /// and an entry that the record has is not asked for. A slot none of
    /// whose entries was asked for is left as it was; any other holds what
    /// the callback made, in one call, of what the slot held. The mimetypes
    /// and the binaries share a slot: the binaries are asked for where the
    /// slot lacks them once the mimetypes are there.
    pub fn checked_for_completion<F: FnMut(&str, &mut Data)>(&mut self, callback: F) -> (asked:
        Ghost<Seq<Entry>>)
        requires
            forall|entry: Entry, words: &str, slot: &mut Data|
                words@ == entry.prompt_text() && entry.missing_in((*slot)@) ==> call_requires(
                    callback,
                    (words, slot),
                ),
            forall|words: &str, slot: &mut Data| #[trigger]
                call_ensures(callback, (words, slot), ()) ==> answered(
                    words@,
                    (*slot)@,
                    (*final(slot))@,
                ) && mimetypes_kept(words@, (*slot)@, (*final(slot))@),
        ensures
            final(self)@.complete(),
            forall|i: int, j: int|
                0 <= i < j < asked@.len() ==> asked@[i].rank() < asked@[j].rank(),
            forall|entry: Entry|
                #![trigger asked@.contains(entry)]
                #![trigger old(self)@.lacks(entry)]
                entry != Entry::Binaries ==> (asked@.contains(entry) <==> old(self)@.lacks(entry)),
            !asked@.contains(Entry::Mimetypes) ==> (asked@.contains(Entry::Binaries) <==> old(
                self,
            )@.lacks(Entry::Binaries)),
            final(self).name == old(self).name,
            final(self).project_license == old(self).project_license,
            forall|entry: Entry|
                !#[trigger] asked@.contains(entry) && entry.spec_field() != Field::Provides
                    ==> final(self).held(entry.spec_field()) == old(self).held(
                    entry.spec_field(),
                ),
            forall|entry: Entry| #[trigger]
                asked@.contains(entry) && entry.spec_field() != Field::Provides ==> exists|
                    words: &str,
                    slot: &mut Data,
                |
                    {
                        &&& words@ == entry.prompt_text()
                        &&& #[trigger] call_ensures(callback, (words, slot), ())
                        &&& *slot == old(self).held(entry.spec_field())
                        &&& *final(slot) == final(self).held(entry.spec_field())
                    },
            !asked@.contains(Entry::Mimetypes) && !asked@.contains(Entry::Binaries)
                ==> final(self).provides == old(self).provides,
            !asked@.contains(Entry::Mimetypes) && asked@.contains(Entry::Binaries) ==> exists|
                words: &str,
                slot: &mut Data,
            |
                {
                    &&& words@ == Entry::Binaries.prompt_text()
                    &&& #[trigger] call_ensures(callback, (words, slot), ())
                    &&& *slot == old(self).provides
                    &&& *final(slot) == final(self).provides
                },
            asked@.contains(Entry::Mimetypes) ==> exists|words: &str, slot: &mut Data|
                {
                    &&& words@ == Entry::Mimetypes.prompt_text()
                    &&& #[trigger] call_ensures(callback, (words, slot), ())
                    &&& *slot == old(self).provides
                    &&& asked@.contains(Entry::Binaries) <==> Entry::Binaries.missing_in(
                        (*final(slot))@,
                    )
                    &&& if asked@.contains(Entry::Binaries) {
                        exists|more: &str, again: &mut Data|
                            {
                                &&& more@ == Entry::Binaries.prompt_text()
                                &&& #[trigger] call_ensures(callback, (more, again), ())
                                &&& *again == *final(slot)
                                &&& *final(again) == final(self).provides
                            }
                    } else {
                        *final(slot) == final(self).provides
                    }
                },
    {
        let mut callback = callback;
        let ghost put = callback;
        let ghost start = *self;
        let ghost mut answers: Map<Entry, Answer> = Map::empty();
        let ghost mut asked: Seq<Entry> = Seq::empty();
        loop
            invariant
                callback == put,
                start == *old(self),
                forall|entry: Entry, words: &str, slot: &mut Data|
                    words@ == entry.prompt_text() && entry.missing_in((*slot)@) ==> call_requires(
                        put,
                        (words, slot),
                    ),
                forall|words: &str, slot: &mut Data| #[trigger]
                    call_ensures(put, (words, slot), ()) ==> answered(
                        words@,
                        (*slot)@,
                        (*final(slot))@,
                    ) && mimetypes_kept(words@, (*slot)@, (*final(slot))@),
                tracks(start, *self, answers),
                forall|entry: Entry| #[trigger]
                    answers.dom().contains(entry) ==> exists|words: &str, slot: &mut Data|
                        {
                            &&& words@ == entry.prompt_text()
                            &&& #[trigger] call_ensures(put, (words, slot), ())
                            &&& *slot == answers[entry].before
                            &&& *final(slot) == answers[entry].after
                        },
                forall|entry: Entry| asked.contains(entry) <==> answers.dom().contains(entry),
                forall|i: int, j: int| 0 <= i < j < asked.len() ==> asked[i].rank() < asked[j].rank(),
                forall|other: Entry|
                    asked.len() > 0 && other.rank() <= asked.last().rank() ==> !self@.lacks(other),
            ensures
                self@.first_missing() is None,
            decreases self@.gaps(),
        {
            match self.first_missing() {
                None => {
                    break ;
                },
                Some(entry) => {
                    let ghost before = *self;
                    self.ask(entry, &mut callback);
                    proof {
                        let field = entry.spec_field();
                        lemma_held_view(before, field);
                        lemma_held_view(before, Field::Provides);
                        law_first_missing_is_first(before@);
                        assert(entry.missing_in(before.held(field)@));
                        assert(!entry.missing_in(self.held(field)@));
                        assert(entry == Entry::Binaries ==> !Entry::Mimetypes.missing_in(
                            self.provides@,
                        ));
                        lemma_question(start, before, *self, answers, entry);
                        lemma_question_order(before, *self, entry);
                        let longer = asked.push(entry);
                        assert forall|other: Entry| longer.contains(other) <==> answers.insert(
                            entry,
                            Answer { before: before.held(field), after: self.held(field) },
                        ).dom().contains(other) by {
                            if other == entry {
                                assert(longer[asked.len() as int] == entry);
                            } else if asked.contains(other) {
                                let at = choose|at: int| 0 <= at < asked.len() && asked[at] == other;
                                assert(longer[at] == other);
                            }
                        }
                        answers = answers.insert(
                            entry,
                            Answer { before: before.held(field), after: self.held(field) },
                        );
                        asked = longer;
                    }
                },
            }
        }
        proof {
            law_first_missing_is_first(self@);
            lemma_held_view(start, Field::Provides);
            lemma_held_view(*self, Field::Provides);
            assert forall|entry: Entry|
                #![trigger asked.contains(entry)]
                #![trigger start@.lacks(entry)]
                entry != Entry::Binaries implies (asked.contains(entry) <==> start@.lacks(
                entry,
            )) by {
                lemma_held_view(start, entry.spec_field());
                lemma_held_view(*self, entry.spec_field());
                assert(!self@.lacks(entry));
                assert(asked.contains(entry) <==> answers.dom().contains(entry));
            }
            assert(asked.contains(Entry::Binaries) <==> answers.dom().contains(Entry::Binaries));
            assert(asked.contains(Entry::Mimetypes) <==> answers.dom().contains(Entry::Mimetypes));
            assert(!self@.lacks(Entry::Binaries));
            assert(!self@.lacks(Entry::Mimetypes));
            assert forall|entry: Entry|
                !#[trigger] asked.contains(entry) && entry.spec_field()
                    != Field::Provides implies self.held(entry.spec_field()) == start.held(
                entry.spec_field(),
            ) by {
                assert(!answers.dom().contains(entry));
            }
            assert forall|entry: Entry| #[trigger]
                asked.contains(entry) && entry.spec_field() != Field::Provides implies exists|
                words: &str,
                slot: &mut Data,
            |
                {
                    &&& words@ == entry.prompt_text()
                    &&& #[trigger] call_ensures(put, (words, slot), ())
                    &&& *slot == start.held(entry.spec_field())
                    &&& *final(slot) == self.held(entry.spec_field())
                } by {
                assert(answers.dom().contains(entry));
            }
        }
        Ghost(asked)
    }
}

} // verus!
