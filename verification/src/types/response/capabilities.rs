use crate::error::Error;
use crate::raw::response::RawResponse;
use crate::response_code::Kind;
use crate::response_code::ResponseCode;
use crate::text::split_whitespace;
use crate::text::lossy_string;
use crate::text::words;
use crate::types::response::article::binary::lossy_lines;
use crate::types::response::article::headers::clone_strings;
use crate::types::response::article::headers::covers;
use crate::types::response::article::headers::has_name;
use crate::types::response::article::headers::lemma_name_index;
use crate::types::response::article::headers::name_index;
use crate::types::response::article::headers::names_unique;
use crate::types::response::article::headers::same_entries;
use crate::types::response::util::err_if_not_kind;
use crate::types::response::util::invalid_code_text;
use vstd::prelude::*;
use vstd::std_specs::cmp::PartialEqSpecImpl;
use vstd::string::StringExecFns;

verus! {

/// A capability that the server advertises: its label, and its arguments where
/// it has any. No argument is held twice.
#[derive(Clone, Debug, Eq)]
pub struct Capability {
    /// The label of the capability
    pub name: String,
    /// The arguments of the capability, each once
    pub args: Option<Vec<String>>,
}

/// A capability as plain values: its label and its arguments.
pub type CapabilityView = (Seq<char>, Option<Seq<Seq<char>>>);

/// The label and the arguments of a capability.
pub open spec fn capability_view(c: Capability) -> CapabilityView {
    (
        c.name@,
        match c.args {
            Some(args) => Some(args.deep_view()),
            None => None,
        },
    )
}

/// The capabilities as plain values.
pub open spec fn capabilities_view(cs: Seq<Capability>) -> Seq<CapabilityView> {
    Seq::new(cs.len(), |i: int| capability_view(cs[i]))
}

/// Two lists of arguments hold the same arguments, in whatever order; or
/// there are no arguments on either side.
pub open spec fn same_args(a: Option<Seq<Seq<char>>>, b: Option<Seq<Seq<char>>>) -> bool {
    match (a, b) {
        (None, None) => true,
        (Some(p), Some(q)) => same_entries(p, q),
        _ => false,
    }
}

/// Two capabilities have the same label and the same arguments.
pub open spec fn same_capability(a: CapabilityView, b: CapabilityView) -> bool {
    a.0 == b.0 && same_args(a.1, b.1)
}

/// A capability that is the same as `c` is among `entries`.
pub open spec fn holds_capability(entries: Seq<CapabilityView>, c: CapabilityView) -> bool {
    exists|j: int| 0 <= j < entries.len() && same_capability(#[trigger] entries[j], c)
}

/// Every capability of `a` is among `b`.
pub open spec fn covers_capabilities(a: Seq<CapabilityView>, b: Seq<CapabilityView>) -> bool {
    forall|i: int| 0 <= i < a.len() ==> holds_capability(b, #[trigger] a[i])
}

/// Whether every string of `a` is among `b`.
pub fn strings_cover(a: &Vec<String>, b: &Vec<String>) -> (all: bool)
    ensures
        all == covers(a.deep_view(), b.deep_view()),
{
    let n: usize = a.len();
    let m: usize = b.len();
    let mut i: usize = 0;
    while i < n
        invariant
            n == a@.len(),
            m == b@.len(),
            i <= n,
            forall|k: int| 0 <= k < i ==> b.deep_view().contains(#[trigger] a.deep_view()[k]),
        decreases n - i,
    {
        let mut j: usize = 0;
        let mut found: bool = false;
        while j < m && !found
            invariant
                m == b@.len(),
                i < n,
                n == a@.len(),
                j <= m,
                found ==> b.deep_view().contains(a.deep_view()[i as int]),
                !found ==> forall|k: int| 0 <= k < j ==> b.deep_view()[k] != a.deep_view()[i as int],
            decreases m - j + (if found { 0int } else { 1int }),
        {
            if b[j] == a[i] {
                assert(b.deep_view()[j as int] == a.deep_view()[i as int]);
                found = true;
            }
            j = j + 1;
        }
        if !found {
            assert(!b.deep_view().contains(a.deep_view()[i as int]));
            return false;
        }
        i = i + 1;
    }
    true
}

impl PartialEq for Capability {
    /// Capabilities are equal where they have the same label and the same
    /// arguments. The order of the arguments does not count.
    fn eq(&self, other: &Self) -> (same: bool) {
        self.name == other.name && match (&self.args, &other.args) {
            (None, None) => true,
            (Some(p), Some(q)) => strings_cover(p, q) && strings_cover(q, p),
            _ => false,
        }
    }
}

impl PartialEqSpecImpl for Capability {
    open spec fn obeys_eq_spec() -> bool {
        true
    }

    open spec fn eq_spec(&self, other: &Self) -> bool {
        same_capability(capability_view(*self), capability_view(*other))
    }
}

/// The members of `s`, each once, in the order in which they first occur.
pub open spec fn distinct(s: Seq<Seq<char>>) -> Seq<Seq<char>>
    decreases s.len(),
{
    if s.len() == 0 {
        Seq::empty()
    } else {
        let before = distinct(s.drop_last());
        if before.contains(s.last()) {
            before
        } else {
            before.push(s.last())
        }
    }
}

/// The members of `distinct(s)` are those of `s`, and none occurs twice.
pub proof fn lemma_distinct(s: Seq<Seq<char>>)
    ensures
        forall|x: Seq<char>| #[trigger] distinct(s).contains(x) <==> s.contains(x),
        distinct(s).no_duplicates(),
    decreases s.len(),
{
    if s.len() > 0 {
        let init = s.drop_last();
        let before = distinct(init);
        let after = distinct(s);
        lemma_distinct(init);
        assert forall|x: Seq<char>| #[trigger] after.contains(x) <==> s.contains(x) by {
            if s.contains(x) {
                let i = choose|i: int| 0 <= i < s.len() && s[i] == x;
                if i < s.len() - 1 {
                    assert(init[i] == x);
                    assert(before.contains(x));
                    let j = choose|j: int| 0 <= j < before.len() && before[j] == x;
                    assert(after[j] == x);
                } else if !before.contains(s.last()) {
                    assert(after[before.len() as int] == x);
                }
            }
            if after.contains(x) {
                let j = choose|j: int| 0 <= j < after.len() && after[j] == x;
                if j < before.len() {
                    assert(before.contains(x));
                    let i = choose|i: int| 0 <= i < init.len() && init[i] == x;
                    assert(s[i] == x);
                } else {
                    assert(s[s.len() - 1] == x);
                }
            }
        }
    }
}

/// The capability that one line of the capability list holds: its first word
/// is the label, the words after it are the arguments. `None` where the line
/// holds no word.
pub open spec fn capability_of(line: Seq<char>) -> Option<CapabilityView> {
    let w = words(line);
    if w.len() == 0 {
        None
    } else if w.len() == 1 {
        Some((w[0], None))
    } else {
        Some((w[0], Some(distinct(w.subrange(1, w.len() as int)))))
    }
}

/// The entries after one more capability has been read: it takes the place of
/// the entry of its label, or is a new entry after the others.
pub open spec fn put_capability(entries: Seq<CapabilityView>, c: CapabilityView) -> Seq<
    CapabilityView,
> {
    if has_name(entries, c.0) {
        entries.update(name_index(entries, c.0), c)
    } else {
        entries.push(c)
    }
}

/// The entries that the lines of a capability list give, read in order; `None`
/// where a line holds no label.
pub open spec fn collect_capabilities(lines: Seq<Seq<char>>) -> Option<Seq<CapabilityView>>
    decreases lines.len(),
{
    if lines.len() == 0 {
        Some(Seq::empty())
    } else {
        match (collect_capabilities(lines.drop_last()), capability_of(lines.last())) {
            (Some(entries), Some(c)) => Some(put_capability(entries, c)),
            _ => None,
        }
    }
}

/// Putting a capability keeps the labels unique.
pub proof fn lemma_put_capability(entries: Seq<CapabilityView>, c: CapabilityView)
    requires
        names_unique(entries),
    ensures
        names_unique(put_capability(entries, c)),
{
    let put = put_capability(entries, c);
    if has_name(entries, c.0) {
        assert forall|a: int, b: int| 0 <= a < b < put.len() implies (#[trigger] put[a]).0 != (
        #[trigger] put[b]).0 by {
            assert(put[b].0 == entries[b].0);
        }
    } else {
        assert forall|a: int, b: int| 0 <= a < b < put.len() implies (#[trigger] put[a]).0 != (
        #[trigger] put[b]).0 by {
            if b < entries.len() {
                assert(put[b] == entries[b]);
            } else {
                assert(put[a] == entries[a]);
            }
        }
    }
}

/// The words in which a capability is shown: its label, and each argument
/// after a blank.
pub open spec fn capability_text(c: CapabilityView) -> Seq<char> {
    match c.1 {
        Some(args) => c.0 + spaced(args),
        None => c.0,
    }
}

/// Each of `args` after a blank.
pub open spec fn spaced(args: Seq<Seq<char>>) -> Seq<char>
    decreases args.len(),
{
    if args.len() == 0 {
        Seq::empty()
    } else {
        spaced(args.drop_last()) + " "@ + args.last()
    }
}

impl Capability {
    /// The words in which the capability is shown.
    pub fn to_string(&self) -> (s: String)
        ensures
            s@ == capability_text(capability_view(*self)),
    {
        let mut s = self.name.clone();
        match &self.args {
            None => {},
            Some(args) => {
                let n: usize = args.len();
                let mut i: usize = 0;
                let ghost all = args.deep_view();
                while i < n
                    invariant
                        n == args@.len(),
                        all == args.deep_view(),
                        i <= n,
                        s@ == self.name@ + spaced(all.subrange(0, i as int)),
                    decreases n - i,
                {
                    s.append(" ");
                    s.append(args[i].as_str());
                    proof {
                        let next = all.subrange(0, i + 1);
                        assert(next.drop_last() =~= all.subrange(0, i as int));
                    }
                    i = i + 1;
                }
                assert(all.subrange(0, n as int) =~= all);
            },
        }
        s
    }
}

/// The capabilities that the server advertises.
#[derive(Debug, Eq)]
pub struct Capabilities(Vec<Capability>);

/// `values` without what occurs in it a second time.
fn dedup(values: &Vec<String>, from: usize) -> (out: Vec<String>)
    requires
        from <= values@.len(),
    ensures
        out.deep_view() == distinct(values.deep_view().subrange(from as int, values@.len() as int)),
{
    let n: usize = values.len();
    let ghost all = values.deep_view().subrange(from as int, n as int);
    let mut out: Vec<String> = Vec::new();
    let mut i: usize = from;
    while i < n
        invariant
            n == values@.len(),
            from <= i <= n,
            all == values.deep_view().subrange(from as int, n as int),
            out.deep_view() == distinct(all.subrange(0, i - from)),
        decreases n - i,
    {
        let ghost before = out.deep_view();
        let ghost next = all.subrange(0, i + 1 - from);
        proof {
            assert(next.drop_last() =~= all.subrange(0, i - from));
        }
        let m: usize = out.len();
        let mut j: usize = 0;
        let mut seen: bool = false;
        while j < m && !seen
            invariant
                m == out@.len(),
                j <= m,
                i < n,
                n == values@.len(),
                before == out.deep_view(),
                seen ==> before.contains(values@[i as int]@),
                !seen ==> forall|k: int| 0 <= k < j ==> before[k] != values@[i as int]@,
            decreases m - j + (if seen { 0int } else { 1int }),
        {
            if out[j] == values[i] {
                assert(before[j as int] == values@[i as int]@);
                seen = true;
            }
            j = j + 1;
        }
        if !seen {
            out.push(values[i].clone());
        }
        i = i + 1;
    }
    assert(all.subrange(0, n - from) =~= all);
    out
}

impl Capabilities {
    /// The entries, one for each label, in the order in which the labels first
    /// occurred.
    pub closed spec fn spec_entries(&self) -> Seq<CapabilityView> {
        capabilities_view(self.0@)
    }

    /// The capabilities are well formed: no two entries have the same label.
    pub open spec fn wf(&self) -> bool {
        names_unique(self.spec_entries())
    }

    #[verifier::type_invariant]
    spec fn inv(&self) -> bool {
        self.wf()
    }

    /// The capability that the line `text` of a capability list holds, or
    /// `None` where the line holds no word.
    pub fn entry(text: &str) -> (c: Option<Capability>)
        ensures
            match c {
                Some(c) => capability_of(text@) == Some(capability_view(c)),
                None => capability_of(text@) is None,
            },
    {
        let w = split_whitespace(text);
        if w.len() == 0 {
            None
        } else {
            let args = if w.len() > 1 {
                Some(dedup(&w, 1))
            } else {
                None
            };
            Some(Capability { name: w[0].clone(), args })
        }
    }

    /// The outcome of decoding the capabilities from a response. It is an
    /// error unless the code says that a capability list follows, the response
    /// has a data-block section, and each content line of the section starts
    /// with a label. Each line is taken as text in which U+FFFD stands for
    /// what is not UTF-8. A label that occurs again overwrites the entry.
    pub open spec fn decoded(resp: RawResponse, r: Result<Capabilities, Error>) -> bool {
        if resp.spec_code() != ResponseCode::Known(Kind::Capabilities) {
            r matches Err(e) && e.is_de(invalid_code_text(resp.spec_code()))
        } else {
            match resp.spec_data_blocks() {
                None => r matches Err(e) && e.is_de("Missing data blocks."@),
                Some(db) => match collect_capabilities(lossy_lines(db.spec_unterminated())) {
                    None => r matches Err(e) && e.is_de("Entry does not have a label"@),
                    Some(entries) => r matches Ok(c) && c.spec_entries() == entries && c.wf(),
                },
            }
        }
    }

    /// Decodes the capabilities from a response.
    pub fn try_from(resp: &RawResponse) -> (r: Result<Capabilities, Error>)
        ensures
            Capabilities::decoded(*resp, r),
    {
        match err_if_not_kind(resp, Kind::Capabilities) {
            Ok(()) => {},
            Err(e) => {
                return Err(e);
            },
        }
        let db = match resp.data_blocks() {
            Some(db) => db,
            None => {
                return Err(Error::de("Missing data blocks."));
            },
        };
        let mut lines = db.unterminated();
        let ghost all = lossy_lines(db.spec_unterminated());
        let ghost raw = db.spec_unterminated();
        let ghost mut k: int = 0;
        let mut entries: Vec<Capability> = Vec::new();
        proof {
            assert(capabilities_view(entries@) =~= Seq::<CapabilityView>::empty());
        }
        loop
            invariant
                resp.spec_code() == ResponseCode::Known(Kind::Capabilities),
                resp.spec_data_blocks() == Some(*db),
                0 <= k <= raw.len(),
                raw == db.spec_unterminated(),
                all == lossy_lines(raw),
                lines.remaining() == raw.subrange(k, raw.len() as int),
                collect_capabilities(all.subrange(0, k)) == Some(capabilities_view(entries@)),
                names_unique(capabilities_view(entries@)),
            ensures
                k == raw.len(),
                collect_capabilities(all.subrange(0, k)) == Some(capabilities_view(entries@)),
                names_unique(capabilities_view(entries@)),
            decreases raw.len() - k,
        {
            match lines.next() {
                None => {
                    break ;
                },
                Some(line) => {
                    let text = lossy_string(line);
                    proof {
                        let next = all.subrange(0, k + 1);
                        assert(next.drop_last() =~= all.subrange(0, k));
                    }
                    match Capabilities::entry(text.as_str()) {
                        None => {
                            proof {
                                lemma_collect_fails(all, k + 1);
                            }
                            return Err(Error::de("Entry does not have a label"));
                        },
                        Some(c) => {
                            proof {
                                lemma_put_capability(
                                    capabilities_view(entries@),
                                    capability_view(c),
                                );
                            }
                            put(&mut entries, c);
                            proof {
                                k = k + 1;
                            }
                        },
                    }
                },
            }
        }
        assert(all.subrange(0, k) =~= all);
        Ok(Capabilities(entries))
    }

    /// Retrieve a capability if it exists.
    pub fn get(&self, key: &str) -> (found: Option<&Capability>)
        ensures
            self.wf(),
            match found {
                Some(c) => {
                    &&& has_name(self.spec_entries(), key@)
                    &&& capability_view(*c) == self.spec_entries()[name_index(
                        self.spec_entries(),
                        key@,
                    )]
                    &&& c.name@ == key@
                },
                None => !has_name(self.spec_entries(), key@),
            },
    {
        proof {
            use_type_invariant(self);
        }
        let wanted = String::from_str(key);
        let n: usize = self.0.len();
        let mut i: usize = 0;
        while i < n
            invariant
                n == self.0@.len(),
                i <= n,
                wanted@ == key@,
                self.wf(),
                forall|j: int| 0 <= j < i ==> (#[trigger] self.spec_entries()[j]).0 != key@,
            decreases n - i,
        {
            if self.0[i].name == wanted {
                proof {
                    lemma_name_index(self.spec_entries(), key@, i as int);
                }
                return Some(&self.0[i]);
            }
            i = i + 1;
        }
        None
    }

    /// A cursor over the capabilities.
    pub fn iter(&self) -> (iter: Iter<'_>)
        ensures
            iter.remaining() == self.spec_entries(),
    {
        let iter = Iter { capabilities: self, next: 0 };
        iter
    }
}

/// Where a prefix of the lines gives no entries, the lines give none.
proof fn lemma_collect_fails(lines: Seq<Seq<char>>, k: int)
    requires
        0 <= k <= lines.len(),
        collect_capabilities(lines.subrange(0, k)) is None,
    ensures
        collect_capabilities(lines) is None,
    decreases lines.len(),
{
    if k < lines.len() {
        assert(lines.drop_last().subrange(0, k) =~= lines.subrange(0, k));
        lemma_collect_fails(lines.drop_last(), k);
    } else {
        assert(lines.subrange(0, k) =~= lines);
    }
}

/// Puts one capability among the entries: in the place of the entry of its
/// label, or as a new entry after the others.
fn put(entries: &mut Vec<Capability>, c: Capability)
    requires
        names_unique(capabilities_view(old(entries)@)),
    ensures
        capabilities_view(final(entries)@) == put_capability(
            capabilities_view(old(entries)@),
            capability_view(c),
        ),
{
    let ghost before = capabilities_view(entries@);
    let n: usize = entries.len();
    let mut i: usize = 0;
    while i < n
        invariant
            n == entries@.len(),
            i <= n,
            before == capabilities_view(entries@),
            before == capabilities_view(old(entries)@),
            names_unique(before),
            forall|j: int| 0 <= j < i ==> (#[trigger] before[j]).0 != c.name@,
        decreases n - i,
    {
        if entries[i].name == c.name {
            proof {
                lemma_name_index(before, c.name@, i as int);
            }
            entries.remove(i);
            entries.insert(i, c);
            return ;
        }
        i = i + 1;
    }
    entries.push(c);
}

/// Whether every capability of `a` is among `b`.
fn covers_all(a: &Vec<Capability>, b: &Vec<Capability>) -> (all: bool)
    ensures
        all == covers_capabilities(capabilities_view(a@), capabilities_view(b@)),
{
    let n: usize = a.len();
    let m: usize = b.len();
    let mut i: usize = 0;
    while i < n
        invariant
            n == a@.len(),
            m == b@.len(),
            i <= n,
            forall|k: int|
                0 <= k < i ==> holds_capability(
                    capabilities_view(b@),
                    #[trigger] capabilities_view(a@)[k],
                ),
        decreases n - i,
    {
        let mut j: usize = 0;
        let mut found: bool = false;
        while j < m && !found
            invariant
                m == b@.len(),
                i < n,
                n == a@.len(),
                j <= m,
                found ==> holds_capability(capabilities_view(b@), capabilities_view(a@)[i as int]),
                !found ==> forall|k: int|
                    0 <= k < j ==> !same_capability(
                        #[trigger] capabilities_view(b@)[k],
                        capabilities_view(a@)[i as int],
                    ),
            decreases m - j + (if found { 0int } else { 1int }),
        {
            if b[j] == a[i] {
                assert(same_capability(
                    capabilities_view(b@)[j as int],
                    capabilities_view(a@)[i as int],
                ));
                found = true;
            }
            j = j + 1;
        }
        if !found {
            assert(!holds_capability(capabilities_view(b@), capabilities_view(a@)[i as int]));
            return false;
        }
        i = i + 1;
    }
    true
}

impl PartialEq for Capabilities {
    /// Capability lists are equal where they hold the same capabilities. The
    /// order of the entries does not count, nor that of their arguments.
    fn eq(&self, other: &Self) -> (same: bool) {
        covers_all(&self.0, &other.0) && covers_all(&other.0, &self.0)
    }
}

impl PartialEqSpecImpl for Capabilities {
    open spec fn obeys_eq_spec() -> bool {
        true
    }

    open spec fn eq_spec(&self, other: &Self) -> bool {
        &&& covers_capabilities(self.spec_entries(), other.spec_entries())
        &&& covers_capabilities(other.spec_entries(), self.spec_entries())
    }
}

impl Clone for Capabilities {
    fn clone(&self) -> (copy: Self)
        ensures
            copy.spec_entries() == self.spec_entries(),
    {
        proof {
            use_type_invariant(self);
        }
        let n: usize = self.0.len();
        let mut inner: Vec<Capability> = Vec::with_capacity(n);
        let mut i: usize = 0;
        while i < n
            invariant
                n == self.0@.len(),
                i <= n,
                inner@.len() == i,
                forall|j: int|
                    0 <= j < i ==> capability_view(#[trigger] inner@[j]) == capability_view(
                        self.0@[j],
                    ),
            decreases n - i,
        {
            let c = &self.0[i];
            let args = match &c.args {
                Some(args) => Some(clone_strings(args)),
                None => None,
            };
            inner.push(Capability { name: c.name.clone(), args });
            i = i + 1;
        }
        assert(capabilities_view(inner@) =~= capabilities_view(self.0@));
        Capabilities(inner)
    }
}

/// A cursor over the capabilities that a server advertises.
#[derive(Clone, Debug)]
pub struct Iter<'a> {
    capabilities: &'a Capabilities,
    next: usize,
}

impl<'a> Iter<'a> {
    /// The entries that the cursor has yet to hand out.
    pub closed spec fn remaining(&self) -> Seq<CapabilityView> {
        let all = self.capabilities.spec_entries();
        if self.next <= all.len() {
            all.subrange(self.next as int, all.len() as int)
        } else {
            Seq::empty()
        }
    }

    /// Hands out the next capability, or `None` when all have been handed out.
    pub fn next(&mut self) -> (found: Option<&'a Capability>)
        ensures
            match found {
                Some(c) => {
                    &&& old(self).remaining().len() > 0
                    &&& capability_view(*c) == old(self).remaining()[0]
                    &&& final(self).remaining() == old(self).remaining().drop_first()
                },
                None => {
                    &&& old(self).remaining().len() == 0
                    &&& final(self).remaining() == old(self).remaining()
                },
            },
    {
        let capabilities: &'a Capabilities = self.capabilities;
        if self.next < capabilities.0.len() {
            let c = &capabilities.0[self.next];
            self.next = self.next + 1;
            Some(c)
        } else {
            None
        }
    }
}

} // verus!
