use crate::error::missing_data_blocks_text;
use crate::error::Error;
use crate::raw::response::RawResponse;
use crate::response_code::Kind;
use crate::response_code::ResponseCode;
use crate::text::text_of;
use crate::types::response::article::binary::header_section_fault_text;
use crate::types::response::article::binary::section_headers;
use crate::types::response::article::parse::has_header_section;
use crate::types::response::article::parse::take_headers;
use crate::types::response::util::article_fields_of;
use crate::types::response::util::err_if_not_kind;
use crate::types::response::util::invalid_code_text;
use crate::types::response::util::process_article_first_line;
use vstd::prelude::*;
use vstd::std_specs::cmp::PartialEqSpecImpl;
use vstd::string::StringExecFns;

verus! {

/// One header of an article: its name and the content of each of its
/// occurrences, in order.
#[derive(Clone, Debug, PartialEq, Eq)]
pub struct Header {
    /// The name of the header
    pub name: String,
    /// One or more content values for the header
    pub content: Vec<String>,
}

/// A header as plain values: its name and its content values.
pub type HeaderView = (Seq<char>, Seq<Seq<char>>);

/// The name and the content values of a header.
pub open spec fn header_view(h: Header) -> HeaderView {
    (h.name@, h.content.deep_view())
}

/// The headers as plain values.
pub open spec fn headers_view(hs: Seq<Header>) -> Seq<HeaderView> {
    Seq::new(hs.len(), |i: int| header_view(hs[i]))
}

/// No two entries have the same name.
pub open spec fn names_unique<V>(entries: Seq<(Seq<char>, V)>) -> bool {
    forall|i: int, j: int|
        0 <= i < j < entries.len() ==> (#[trigger] entries[i]).0 != (#[trigger] entries[j]).0
}

/// An entry of the name `name` is among `entries`.
pub open spec fn has_name<V>(entries: Seq<(Seq<char>, V)>, name: Seq<char>) -> bool {
    exists|i: int| 0 <= i < entries.len() && (#[trigger] entries[i]).0 == name
}

/// The index of an entry of the name `name`.
pub open spec fn name_index<V>(entries: Seq<(Seq<char>, V)>, name: Seq<char>) -> int {
    choose|i: int| 0 <= i < entries.len() && (#[trigger] entries[i]).0 == name
}

/// Where the names are unique, the entry of a name is the one entry that has
/// the name.
pub proof fn lemma_name_index<V>(entries: Seq<(Seq<char>, V)>, name: Seq<char>, i: int)
    requires
        names_unique(entries),
        0 <= i < entries.len(),
        entries[i].0 == name,
    ensures
        has_name(entries, name),
        name_index(entries, name) == i,
{
    let k = name_index(entries, name);
    if k < i {
        assert(entries[k].0 != entries[i].0);
    } else if i < k {
        assert(entries[i].0 != entries[k].0);
    }
}

/// Every entry holds at least one content value.
pub open spec fn values_present(entries: Seq<HeaderView>) -> bool {
    forall|i: int| 0 <= i < entries.len() ==> (#[trigger] entries[i]).1.len() > 0
}

/// Entries that each hold a value hold at least as many values as there are
/// entries: there are no values just where there are no entries.
pub proof fn lemma_total_values_bound(entries: Seq<HeaderView>)
    requires
        values_present(entries),
    ensures
        total_values(entries) >= entries.len(),
    decreases entries.len(),
{
    if entries.len() > 0 {
        assert(entries.last() == entries[entries.len() - 1]);
        assert forall|i: int| 0 <= i < entries.drop_last().len() implies (
        #[trigger] entries.drop_last()[i]).1.len() > 0 by {
            assert(entries.drop_last()[i] == entries[i]);
        }
        lemma_total_values_bound(entries.drop_last());
    }
}

/// The content values that `entries` hold under `name`; none where no entry
/// has that name.
pub open spec fn values_of(entries: Seq<HeaderView>, name: Seq<char>) -> Seq<Seq<char>> {
    if has_name(entries, name) {
        entries[name_index(entries, name)].1
    } else {
        Seq::empty()
    }
}

/// The number of content values in all entries together.
pub open spec fn total_values(entries: Seq<HeaderView>) -> nat
    decreases entries.len(),
{
    if entries.len() == 0 {
        0
    } else {
        total_values(entries.drop_last()) + entries.last().1.len()
    }
}

/// The entries after one more header has been read: its content is added to
/// the entry of its name, or a new entry is made for it after the others. A
/// repeated name is kept, never overwritten.
pub open spec fn add_header(entries: Seq<HeaderView>, name: Seq<char>, content: Seq<char>) -> Seq<
    HeaderView,
> {
    if has_name(entries, name) {
        let i = name_index(entries, name);
        entries.update(i, (name, entries[i].1.push(content)))
    } else {
        entries.push((name, seq![content]))
    }
}

/// The entries that a run of headers gives, read in order.
pub open spec fn collect_headers(pairs: Seq<(Seq<char>, Seq<char>)>) -> Seq<HeaderView>
    decreases pairs.len(),
{
    if pairs.len() == 0 {
        Seq::empty()
    } else {
        add_header(collect_headers(pairs.drop_last()), pairs.last().0, pairs.last().1)
    }
}

/// Updating one entry by one more value adds one to the number of values.
pub proof fn lemma_total_values_update(entries: Seq<HeaderView>, i: int, content: Seq<char>)
    requires
        0 <= i < entries.len(),
    ensures
        total_values(entries.update(i, (entries[i].0, entries[i].1.push(content))))
            == total_values(entries) + 1,
    decreases entries.len(),
{
    let updated = entries.update(i, (entries[i].0, entries[i].1.push(content)));
    if i == entries.len() - 1 {
        assert(updated.drop_last() =~= entries.drop_last());
    } else {
        lemma_total_values_update(entries.drop_last(), i, content);
        assert(updated.drop_last() =~= entries.drop_last().update(
            i,
            (entries[i].0, entries[i].1.push(content)),
        ));
    }
}

/// Adding a header keeps the names unique and adds one to the number of
/// values.
pub proof fn lemma_add_header(entries: Seq<HeaderView>, name: Seq<char>, content: Seq<char>)
    requires
        names_unique(entries),
    ensures
        names_unique(add_header(entries, name, content)),
        values_present(entries) ==> values_present(add_header(entries, name, content)),
        total_values(add_header(entries, name, content)) == total_values(entries) + 1,
        values_of(add_header(entries, name, content), name) == values_of(entries, name).push(
            content,
        ),
        forall|other: Seq<char>|
            other != name ==> values_of(add_header(entries, name, content), other) == values_of(
                entries,
                other,
            ),
{
    let added = add_header(entries, name, content);
    let at = if has_name(entries, name) {
        name_index(entries, name)
    } else {
        entries.len() as int
    };
    if has_name(entries, name) {
        lemma_total_values_update(entries, at, content);
    } else {
        assert(added.drop_last() =~= entries);
        assert(Seq::<Seq<char>>::empty().push(content) =~= seq![content]);
    }
    assert forall|j: int| 0 <= j < added.len() implies (#[trigger] added[j]).0 == if j == at {
        name
    } else {
        entries[j].0
    } by {}
    assert(names_unique(added)) by {
        assert forall|i: int, j: int| 0 <= i < j < added.len() implies (#[trigger] added[i]).0 != (
        #[trigger] added[j]).0 by {
            if j < entries.len() {
                assert(entries[i].0 != entries[j].0);
            }
        }
    }
    lemma_name_index(added, name, at);
    assert forall|other: Seq<char>| other != name implies values_of(added, other) == values_of(
        entries,
        other,
    ) by {
        if has_name(entries, other) {
            let k = name_index(entries, other);
            lemma_name_index(added, other, k);
        } else if has_name(added, other) {
            let m = name_index(added, other);
            assert(entries[m].0 == other);
        }
    }
}

/// The entries that a run of headers gives have unique names, and hold as
/// many values as the run has headers.
pub proof fn lemma_collect_headers(pairs: Seq<(Seq<char>, Seq<char>)>)
    ensures
        names_unique(collect_headers(pairs)),
        values_present(collect_headers(pairs)),
        total_values(collect_headers(pairs)) == pairs.len(),
    decreases pairs.len(),
{
    if pairs.len() > 0 {
        lemma_collect_headers(pairs.drop_last());
        lemma_add_header(collect_headers(pairs.drop_last()), pairs.last().0, pairs.last().1);
    }
}

/// The content of every header of the name `name` among `pairs`, in order.
pub open spec fn occurrences(pairs: Seq<(Seq<char>, Seq<char>)>, name: Seq<char>) -> Seq<
    Seq<char>,
>
    decreases pairs.len(),
{
    if pairs.len() == 0 {
        Seq::empty()
    } else if pairs.last().0 == name {
        occurrences(pairs.drop_last(), name).push(pairs.last().1)
    } else {
        occurrences(pairs.drop_last(), name)
    }
}

/// The entries that a run of headers gives hold under each name the content
/// of every header of that name, in the order in which they were read: a name
/// that occurs again adds a value, and never takes the place of one.
pub proof fn lemma_values_are_occurrences(pairs: Seq<(Seq<char>, Seq<char>)>, name: Seq<char>)
    ensures
        values_of(collect_headers(pairs), name) == occurrences(pairs, name),
    decreases pairs.len(),
{
    if pairs.len() > 0 {
        let before = collect_headers(pairs.drop_last());
        lemma_values_are_occurrences(pairs.drop_last(), name);
        lemma_collect_headers(pairs.drop_last());
        lemma_add_header(before, pairs.last().0, pairs.last().1);
    } else {
        assert(!has_name(collect_headers(pairs), name));
    }
}

/// The headers of an article: for each name the content of every header of
/// that name, in the order in which they were read. A name may occur more than
/// once in an article; each occurrence is kept.
#[derive(Debug, Eq)]
pub struct Headers {
    pub(crate) inner: Vec<Header>,
    pub(crate) len: usize,
}

impl Headers {
    /// The entries, one for each name, in the order in which the names first
    /// occurred.
    pub open(crate) spec fn spec_entries(&self) -> Seq<HeaderView> {
        headers_view(self.inner@)
    }

    /// The number of headers, each occurrence of a name counted.
    pub open(crate) spec fn spec_len(&self) -> nat {
        self.len as nat
    }

    /// The headers are well formed: no two entries have the same name, every
    /// entry holds at least one content value, and the number of headers is
    /// the number of content values.
    pub open spec fn wf(&self) -> bool {
        &&& names_unique(self.spec_entries())
        &&& values_present(self.spec_entries())
        &&& self.spec_len() == total_values(self.spec_entries())
    }

    #[verifier::type_invariant]
    spec fn inv(&self) -> bool {
        self.wf()
    }

    /// Builds the headers from their entries.
    pub(crate) fn from_parts(inner: Vec<Header>, len: usize) -> (headers: Self)
        requires
            names_unique(headers_view(inner@)),
            values_present(headers_view(inner@)),
            len == total_values(headers_view(inner@)),
        ensures
            headers.spec_entries() == headers_view(inner@),
            headers.spec_len() == len,
            headers.wf(),
    {
        Headers { inner, len }
    }

    /// The total number of headers. This may be more than the number of names,
    /// as a name may occur more than once.
    pub fn len(&self) -> (n: usize)
        ensures
            n == self.spec_len(),
            n == total_values(self.spec_entries()),
    {
        proof {
            use_type_invariant(self);
        }
        self.len
    }

    /// Returns true if there are no headers.
    pub fn is_empty(&self) -> (empty: bool)
        ensures
            empty == (self.spec_entries().len() == 0),
            empty == (self.spec_len() == 0),
    {
        proof {
            use_type_invariant(self);
            lemma_total_values_bound(self.spec_entries());
        }
        self.inner.len() == 0
    }

    /// The header of the name `key`, if there is one.
    pub fn get(&self, key: &str) -> (found: Option<&Header>)
        ensures
            self.wf(),
            match found {
                Some(h) => {
                    &&& has_name(self.spec_entries(), key@)
                    &&& h.name@ == key@
                    &&& h.content.deep_view() == values_of(self.spec_entries(), key@)
                },
                None => !has_name(self.spec_entries(), key@),
            },
    {
        proof {
            use_type_invariant(self);
        }
        let wanted = String::from_str(key);
        let n: usize = self.inner.len();
        let mut i: usize = 0;
        while i < n
            invariant
                n == self.inner@.len(),
                i <= n,
                wanted@ == key@,
                self.wf(),
                forall|j: int| 0 <= j < i ==> (#[trigger] self.spec_entries()[j]).0 != key@,
            decreases n - i,
        {
            if self.inner[i].name == wanted {
                proof {
                    lemma_name_index(self.spec_entries(), key@, i as int);
                }
                return Some(&self.inner[i]);
            }
            i = i + 1;
        }
        None
    }

    /// A cursor over the headers, one entry for each name.
    pub fn iter(&self) -> (iter: Iter<'_>)
        ensures
            iter.remaining() == self.spec_entries(),
    {
        let iter = Iter { headers: self, next: 0 };
        iter
    }
}

/// Every member of `a` is a member of `b`.
pub open spec fn covers<V>(a: Seq<V>, b: Seq<V>) -> bool {
    forall|i: int| 0 <= i < a.len() ==> b.contains(#[trigger] a[i])
}

/// `a` and `b` hold the same entries, in whatever order.
pub open spec fn same_entries<V>(a: Seq<V>, b: Seq<V>) -> bool {
    covers(a, b) && covers(b, a)
}

/// Whether two lists of strings hold the same text, string by string.
pub fn strings_equal(a: &Vec<String>, b: &Vec<String>) -> (same: bool)
    ensures
        same == (a.deep_view() == b.deep_view()),
{
    let n: usize = a.len();
    if n != b.len() {
        assert(a.deep_view().len() != b.deep_view().len());
        return false;
    }
    let mut i: usize = 0;
    while i < n
        invariant
            n == a@.len(),
            n == b@.len(),
            i <= n,
            forall|j: int| 0 <= j < i ==> a@[j]@ == b@[j]@,
        decreases n - i,
    {
        if a[i] != b[i] {
            assert(a.deep_view()[i as int] != b.deep_view()[i as int]);
            return false;
        }
        i = i + 1;
    }
    assert(a.deep_view() =~= b.deep_view());
    true
}

/// Whether `h` is among `entries`.
fn holds_header(entries: &Vec<Header>, h: &Header) -> (found: bool)
    ensures
        found == headers_view(entries@).contains(header_view(*h)),
{
    let n: usize = entries.len();
    let mut i: usize = 0;
    while i < n
        invariant
            n == entries@.len(),
            i <= n,
            forall|j: int| 0 <= j < i ==> headers_view(entries@)[j] != header_view(*h),
        decreases n - i,
    {
        if entries[i].name == h.name && strings_equal(&entries[i].content, &h.content) {
            assert(headers_view(entries@)[i as int] == header_view(*h));
            return true;
        }
        i = i + 1;
    }
    false
}

/// Whether every header of `a` is among `b`.
fn covers_headers(a: &Vec<Header>, b: &Vec<Header>) -> (all: bool)
    ensures
        all == covers(headers_view(a@), headers_view(b@)),
{
    let n: usize = a.len();
    let mut i: usize = 0;
    while i < n
        invariant
            n == a@.len(),
            i <= n,
            forall|j: int|
                0 <= j < i ==> headers_view(b@).contains(#[trigger] headers_view(a@)[j]),
        decreases n - i,
    {
        if !holds_header(b, &a[i]) {
            assert(!headers_view(b@).contains(headers_view(a@)[i as int]));
            return false;
        }
        i = i + 1;
    }
    true
}

impl PartialEq for Headers {
    /// Headers are equal where they hold the same entries and the same number
    /// of headers. The order of the entries does not count.
    fn eq(&self, other: &Self) -> (same: bool) {
        self.len == other.len && covers_headers(&self.inner, &other.inner) && covers_headers(
            &other.inner,
            &self.inner,
        )
    }
}

impl PartialEqSpecImpl for Headers {
    open spec fn obeys_eq_spec() -> bool {
        true
    }

    open spec fn eq_spec(&self, other: &Self) -> bool {
        self.spec_len() == other.spec_len() && same_entries(
            self.spec_entries(),
            other.spec_entries(),
        )
    }
}

impl Clone for Headers {
    fn clone(&self) -> (copy: Self)
        ensures
            copy.spec_entries() == self.spec_entries(),
            copy.spec_len() == self.spec_len(),
    {
        proof {
            use_type_invariant(self);
        }
        let n: usize = self.inner.len();
        let mut inner: Vec<Header> = Vec::with_capacity(n);
        let mut i: usize = 0;
        while i < n
            invariant
                n == self.inner@.len(),
                i <= n,
                inner@.len() == i,
                forall|j: int| 0 <= j < i ==> header_view(#[trigger] inner@[j]) == header_view(
                    self.inner@[j],
                ),
            decreases n - i,
        {
            inner.push(clone_header(&self.inner[i]));
            i = i + 1;
        }
        assert(headers_view(inner@) =~= headers_view(self.inner@));
        Headers { inner, len: self.len }
    }
}

/// A copy of `strings`.
pub fn clone_strings(strings: &Vec<String>) -> (copy: Vec<String>)
    ensures
        copy.deep_view() == strings.deep_view(),
{
    let n: usize = strings.len();
    let mut copy: Vec<String> = Vec::with_capacity(n);
    let mut i: usize = 0;
    while i < n
        invariant
            n == strings@.len(),
            i <= n,
            copy@.len() == i,
            forall|j: int| 0 <= j < i ==> (#[trigger] copy@[j])@ == strings@[j]@,
        decreases n - i,
    {
        copy.push(strings[i].clone());
        i = i + 1;
    }
    copy
}

/// A copy of `h`.
pub fn clone_header(h: &Header) -> (copy: Header)
    ensures
        header_view(copy) == header_view(*h),
{
    Header { name: h.name.clone(), content: clone_strings(&h.content) }
}

/// A cursor over the headers of an article.
#[derive(Clone, Debug)]
pub struct Iter<'a> {
    headers: &'a Headers,
    next: usize,
}

impl<'a> Iter<'a> {
    /// The entries that the cursor has yet to hand out.
    pub closed spec fn remaining(&self) -> Seq<HeaderView> {
        let all = self.headers.spec_entries();
        if self.next <= all.len() {
            all.subrange(self.next as int, all.len() as int)
        } else {
            Seq::empty()
        }
    }

    /// Hands out the next header, or `None` when all have been handed out.
    pub fn next(&mut self) -> (found: Option<&'a Header>)
        ensures
            match found {
                Some(h) => {
                    &&& old(self).remaining().len() > 0
                    &&& header_view(*h) == old(self).remaining()[0]
                    &&& final(self).remaining() == old(self).remaining().drop_first()
                },
                None => {
                    &&& old(self).remaining().len() == 0
                    &&& final(self).remaining() == old(self).remaining()
                },
            },
    {
        let headers: &'a Headers = self.headers;
        if self.next < headers.inner.len() {
            let h = &headers.inner[self.next];
            self.next = self.next + 1;
            Some(h)
        } else {
            None
        }
    }
}

/// The headers of an article, as the server sends them on their own.
#[derive(Clone, Debug, Eq, PartialEq)]
pub struct Head {
    /// The number of the article within its newsgroup
    pub number: u64,
    /// The message id of the article
    pub message_id: String,
    /// The headers of the article
    pub headers: Headers,
}

impl Head {
    /// The outcome of decoding the headers of an article from a response. It
    /// is an error unless the code says that headers follow, the status line
    /// holds an article number and a message id, the response has a data-block
    /// section, and the section starts with a header section.
    pub open spec fn decoded(resp: RawResponse, r: Result<Head, Error>) -> bool {
        if resp.spec_code() != ResponseCode::Known(Kind::Head) {
            r matches Err(e) && e.is_de(invalid_code_text(resp.spec_code()))
        } else {
            match article_fields_of(text_of(resp.spec_first_line())) {
                Err(msg) => r matches Err(e) && e.is_de(msg),
                Ok((number, id)) => match resp.spec_data_blocks() {
                    None => r matches Err(e) && e.is_de(missing_data_blocks_text()),
                    Some(db) => if !has_header_section(db.spec_payload()) {
                        r matches Err(e) && e.is_de(header_section_fault_text(db.spec_payload()))
                    } else {
                        &&& r matches Ok(head)
                        &&& head.number == number
                        &&& head.message_id@ == id
                        &&& head.headers.wf()
                        &&& head.headers.spec_entries() == section_headers(db.spec_payload())
                    },
                },
            }
        }
    }

    /// Decodes the headers of an article from a response.
    pub fn try_from(resp: &RawResponse) -> (r: Result<Head, Error>)
        ensures
            Head::decoded(*resp, r),
    {
        match err_if_not_kind(resp, Kind::Head) {
            Ok(()) => {},
            Err(e) => {
                return Err(e);
            },
        }
        let (number, message_id) = match process_article_first_line(resp) {
            Ok(fields) => fields,
            Err(e) => {
                return Err(e);
            },
        };
        let data_blocks = match resp.data_blocks() {
            Some(db) => db,
            None => {
                return Err(Error::missing_data_blocks());
            },
        };
        match take_headers(data_blocks.payload()) {
            Ok((_, headers)) => Ok(Head { number, message_id, headers }),
            Err(e) => Err(Error::invalid_data_blocks(e.kind.name())),
        }
    }
}

} // verus!
