//! The identifier scheme: definition-space `NodeId` (`scn:///<path>`) and
//! instance-space `StateId` (`sms:///<instance>/<path>`) addresses, with the
//! segmented-path grammar both schemes share.
//!
//! Construction never validates; validation is deferred to the first access
//! (`path`, `id`), which rejects ill-formed text instead of panicking.

use vstd::prelude::*;
use vstd::string::StrSliceExecFns;
use vstd::string::StringExecFns;

use crate::error::StateChartError;
use crate::text::str_eq;
use crate::values::spec_raw_node_id;
use crate::values::ValidatedValue;

verus! {

// ---------------------------------------------------------------------------
// Character classes
// ---------------------------------------------------------------------------
/// Whether `c` is a Unicode letter; what `char::is_alphabetic` returns.
pub uninterp spec fn is_letter(c: char) -> bool;

/// Whether `c` is a Unicode letter or digit; what `char::is_alphanumeric`
/// returns.
pub uninterp spec fn is_alnum(c: char) -> bool;

/// Relies on char::is_alphabetic: whether `c` has the Unicode Alphabetic
/// property, a function of the character alone.
#[verifier::external_body]
fn char_is_letter(c: char) -> (r: bool)
    ensures
        r == is_letter(c),
{
    c.is_alphabetic()
}

/// Relies on char::is_alphanumeric: whether `c` is alphabetic or a numeric
/// character, a function of the character alone.
#[verifier::external_body]
fn char_is_alnum(c: char) -> (r: bool)
    ensures
        r == is_alnum(c),
{
    c.is_alphanumeric()
}

/// A word character: a letter, a digit or an underscore.
pub open spec fn is_word_char(c: char) -> bool {
    is_alnum(c) || is_letter(c) || c == '_'
}

fn char_is_word(c: char) -> (r: bool)
    ensures
        r == is_word_char(c),
{
    char_is_alnum(c) || char_is_letter(c) || c == '_'
}

/// A character that may continue a path segment: a word character, a dot or
/// a dash.
pub open spec fn is_tail_char(c: char) -> bool {
    is_word_char(c) || c == '.' || c == '-'
}

fn char_is_tail(c: char) -> (r: bool)
    ensures
        r == is_tail_char(c),
{
    char_is_word(c) || c == '.' || c == '-'
}

// ---------------------------------------------------------------------------
// The segmented-path grammar
// ---------------------------------------------------------------------------
/// How a character may follow its predecessor inside a segmented path: after
/// a separator a new segment must start with a word character; within a
/// segment a tail character continues it or a separator ends it.
pub open spec fn sep_ok(prev: char, c: char) -> bool {
    if prev == '/' {
        is_word_char(c) && c != '/'
    } else {
        (is_tail_char(c) && c != '/') || c == '/'
    }
}

/// One or more `/`-separated segments, each starting with a word character
/// and continuing with word characters, dots or dashes.
pub open spec fn valid_segments(s: Seq<char>) -> bool {
    &&& s.len() > 0
    &&& is_word_char(s[0]) && s[0] != '/'
    &&& s[s.len() - 1] != '/'
    &&& forall|i: int| 1 <= i < s.len() ==> sep_ok(s[i - 1], #[trigger] s[i])
}

/// A node path: segments as above, the first beginning with a letter.
pub open spec fn valid_node_path(s: Seq<char>) -> bool {
    valid_segments(s) && is_letter(s[0])
}

/// Checks `valid_segments` on the characters of `s` from position `from`.
fn check_segments_from(s: &str, from: usize) -> (r: bool)
    requires
        from < s@.len(),
    ensures
        r == valid_segments(s@.skip(from as int)),
{
    let ghost t = s@.skip(from as int);
    let n = s.unicode_len();
    let c0 = s.get_char(from);
    if !(char_is_word(c0) && c0 != '/') {
        return false;
    }
    let mut prev = c0;
    let mut i: usize = from + 1;
    while i < n
        invariant
            from + 1 <= i <= n,
            n == s@.len(),
            from < n,
            t == s@.skip(from as int),
            prev == s@[i - 1],
            is_word_char(s@[from as int]) && s@[from as int] != '/',
            forall|j: int| from + 1 <= j < i ==> sep_ok(s@[j - 1], #[trigger] s@[j]),
        decreases n - i,
    {
        let c = s.get_char(i);
        let ok = if prev == '/' {
            char_is_word(c) && c != '/'
        } else {
            (char_is_tail(c) && c != '/') || c == '/'
        };
        if !ok {
            proof {
                let k = i - from;
                assert(t[k] == s@[i as int]);
                assert(t[k - 1] == s@[i - 1]);
                assert(!sep_ok(t[k - 1], t[k]));
            }
            return false;
        }
        prev = c;
        i += 1;
    }
    if prev == '/' {
        proof {
            assert(t[t.len() - 1] == s@[n - 1]);
        }
        return false;
    }
    proof {
        assert(t.len() == n - from);
        assert(t[0] == s@[from as int]);
        assert(t[t.len() - 1] == s@[n - 1]);
        assert forall|k: int| 1 <= k < t.len() implies sep_ok(t[k - 1], #[trigger] t[k]) by {
            assert(t[k] == s@[from + k]);
            assert(t[k - 1] == s@[from + k - 1]);
            assert(sep_ok(s@[from + k - 1], s@[from + k]));
        }
    }
    true
}

// ---------------------------------------------------------------------------
// Address shapes
// ---------------------------------------------------------------------------
/// The view of the fixed `scn:///` scheme prefix of definition addresses.
pub open spec fn scn_prefix() -> Seq<char> {
    seq!['s', 'c', 'n', ':', '/', '/', '/']
}

/// The view of the fixed `sms:///` scheme prefix of instance addresses.
pub open spec fn sms_prefix() -> Seq<char> {
    seq!['s', 'm', 's', ':', '/', '/', '/']
}

/// A well-formed definition address: the scheme prefix followed by a valid
/// node path.
pub open spec fn node_text_wf(t: Seq<char>) -> bool {
    t.len() > 7 && t.subrange(0, 7) == scn_prefix() && valid_node_path(t.skip(7))
}

/// A well-formed instance address: the scheme prefix followed by valid
/// segments, the first of which is the instance segment.
pub open spec fn state_text_wf(t: Seq<char>) -> bool {
    t.len() > 7 && t.subrange(0, 7) == sms_prefix() && valid_segments(t.skip(7))
}

/// The length of the first segment of `r`: the characters before the first
/// separator, or all of `r` if it has none.
pub open spec fn seg_end(r: Seq<char>) -> int
    decreases r.len(),
{
    if r.len() == 0 {
        0
    } else if r[0] == '/' {
        0
    } else {
        1 + seg_end(r.skip(1))
    }
}

/// The instance segment of an instance address: the first segment after the
/// scheme prefix.
pub open spec fn instance_of(t: Seq<char>) -> Seq<char> {
    t.skip(7).take(seg_end(t.skip(7)))
}

pub proof fn lemma_seg_end(r: Seq<char>)
    ensures
        0 <= seg_end(r) <= r.len(),
        forall|j: int| 0 <= j < seg_end(r) ==> r[j] != '/',
        seg_end(r) < r.len() ==> r[seg_end(r)] == '/',
    decreases r.len(),
{
    if r.len() == 0 {
    } else if r[0] == '/' {
    } else {
        lemma_seg_end(r.skip(1));
        assert forall|j: int| 0 <= j < seg_end(r) implies r[j] != '/' by {
            if j > 0 {
                assert(r.skip(1)[j - 1] != '/');
            }
        }
        if seg_end(r) < r.len() {
            assert(r.skip(1)[seg_end(r) - 1] == r[seg_end(r)]);
        }
    }
}

pub proof fn lemma_seg_end_unique(r: Seq<char>, k: int)
    requires
        0 <= k <= r.len(),
        forall|j: int| 0 <= j < k ==> r[j] != '/',
        k < r.len() ==> r[k] == '/',
    ensures
        seg_end(r) == k,
    decreases r.len(),
{
    if r.len() == 0 {
    } else if k == 0 {
    } else {
        assert(r[0] != '/');
        assert forall|j: int| 0 <= j < k - 1 implies r.skip(1)[j] != '/' by {
            assert(r.skip(1)[j] == r[j + 1]);
        }
        if k - 1 < r.skip(1).len() {
            assert(r.skip(1)[k - 1] == r[k]);
        }
        lemma_seg_end_unique(r.skip(1), k - 1);
    }
}

// ---------------------------------------------------------------------------
// NodeId
// ---------------------------------------------------------------------------
/// A system wide unique id for a node of a chart definition, shared by all
/// instances of that chart. The text is held as given; `path` validates it.
#[derive(Debug)]
pub struct NodeId(pub String);

impl View for NodeId {
    type V = Seq<char>;

    open spec fn view(&self) -> Seq<char> {
        self.0@
    }
}

impl DeepView for NodeId {
    type V = Seq<char>;

    open spec fn deep_view(&self) -> Seq<char> {
        self.0@
    }
}

impl Clone for NodeId {
    fn clone(&self) -> (r: Self)
        ensures
            r == *self,
    {
        NodeId(self.0.clone())
    }
}

impl PartialEq for NodeId {
    fn eq(&self, other: &NodeId) -> (r: bool) {
        str_eq(self.0.as_str(), other.0.as_str())
    }
}

impl vstd::std_specs::cmp::PartialEqSpecImpl for NodeId {
    open spec fn obeys_eq_spec() -> bool {
        true
    }

    open spec fn eq_spec(&self, other: &NodeId) -> bool {
        self.0@ == other.0@
    }
}

fn check_prefix(s: &str, scheme_second: char) -> (r: bool)
    requires
        s@.len() >= 7,
    ensures
        scheme_second == 'c' ==> r == (s@.subrange(0, 7) == scn_prefix()),
        scheme_second == 'm' ==> r == (s@.subrange(0, 7) == sms_prefix()),
{
    let r = s.get_char(0) == 's' && s.get_char(1) == scheme_second && s.get_char(2) == if scheme_second == 'c' { 'n' } else { 's' }
        && s.get_char(3) == ':' && s.get_char(4) == '/' && s.get_char(5) == '/' && s.get_char(6)
        == '/';
    proof {
        if r {
            if scheme_second == 'c' {
                assert(s@.subrange(0, 7) =~= scn_prefix());
            }
            if scheme_second == 'm' {
                assert(s@.subrange(0, 7) =~= sms_prefix());
            }
        } else {
            if scheme_second == 'c' && s@.subrange(0, 7) == scn_prefix() {
                assert(forall|k: int| 0 <= k < 7 ==> s@[k] == scn_prefix()[k]);
            }
            if scheme_second == 'm' && s@.subrange(0, 7) == sms_prefix() {
                assert(forall|k: int| 0 <= k < 7 ==> s@[k] == sms_prefix()[k]);
            }
        }
    }
    r
}

impl NodeId {
    /// A placeholder definition address.
    pub fn default() -> (r: Self)
        ensures
            r.0@ == "scn:///de4ult"@,
    {
        NodeId(String::from_str("scn:///de4ult"))
    }

    /// Creates a new node id from a given node path, without validating.
    pub fn new(node_path: &str) -> (r: Self)
        ensures
            r.0@ == scn_prefix() + node_path@,
    {
        let mut s = String::from_str("scn:///");
        s.append(node_path);
        proof {
            reveal_strlit("scn:///");
            assert("scn:///"@ =~= scn_prefix());
        }
        NodeId(s)
    }

    /// The node path of this address. Validation happens here: a text that
    /// does not match the `scn:///<path>` pattern is rejected, exactly then.
    pub fn path(&self) -> (r: Result<&str, StateChartError>)
        ensures
            node_text_wf(self.0@) ==> (r matches Ok(p) && p@ == self.0@.skip(7)),
            !node_text_wf(self.0@) ==> (r matches Err(e) && e matches
                StateChartError::InvalidNodeId(n) && n == *self),
    {
        let s = self.0.as_str();
        let n = s.unicode_len();
        if n <= 7 {
            return Err(StateChartError::InvalidNodeId(self.clone()));
        }
        if !check_prefix(s, 'c') {
            return Err(StateChartError::InvalidNodeId(self.clone()));
        }
        if !check_segments_from(s, 7) {
            return Err(StateChartError::InvalidNodeId(self.clone()));
        }
        if !char_is_letter(s.get_char(7)) {
            proof {
                assert(self.0@.skip(7)[0] == self.0@[7]);
            }
            return Err(StateChartError::InvalidNodeId(self.clone()));
        }
        proof {
            assert(self.0@.skip(7)[0] == self.0@[7]);
        }
        Ok(s.substring_char(7, n))
    }

    /// Builds a node id from a generic value: the text is taken as given,
    /// without validating the address.
    pub fn try_from(value: &ValidatedValue) -> (r: Result<NodeId, StateChartError>)
        ensures
            match spec_raw_node_id(value@) {
                Ok(t) => r matches Ok(n) && n.0@ == t,
                Err(e) => r matches Err(x) && x@ == e,
            },
    {
        match value {
            ValidatedValue::String(id) => Ok(NodeId(id.clone())),
            _ => Err(StateChartError::UnexpectedType),
        }
    }
}

/// Convenience conversion of owned text into a (not yet validated) node id.
impl From<String> for NodeId {
    fn from(value: String) -> (r: NodeId) {
        NodeId(value)
    }
}

impl vstd::std_specs::convert::FromSpecImpl<String> for NodeId {
    open spec fn obeys_from_spec() -> bool {
        true
    }

    open spec fn from_spec(value: String) -> NodeId {
        NodeId(value)
    }
}

/// Convenience conversion of borrowed text into a (not yet validated) node
/// id.
impl From<&str> for NodeId {
    fn from(value: &str) -> (r: NodeId) {
        NodeId(value.to_owned())
    }
}

impl vstd::std_specs::convert::FromSpecImpl<&str> for NodeId {
    open spec fn obeys_from_spec() -> bool {
        false
    }

    open spec fn from_spec(value: &str) -> NodeId {
        vstd::pervasive::arbitrary()
    }
}

// ---------------------------------------------------------------------------
// StateId
// ---------------------------------------------------------------------------
/// An instance-space address: `sms:///<instance>/<path>`. The instance
/// segment is minted once per machine and shared by every address of that
/// machine, making any address traceable to its owning instance.
#[derive(Debug)]
pub struct StateId(pub String);

impl View for StateId {
    type V = Seq<char>;

    open spec fn view(&self) -> Seq<char> {
        self.0@
    }
}

impl Clone for StateId {
    fn clone(&self) -> (r: Self)
        ensures
            r == *self,
    {
        StateId(self.0.clone())
    }
}

impl PartialEq for StateId {
    fn eq(&self, other: &StateId) -> (r: bool) {
        str_eq(self.0.as_str(), other.0.as_str())
    }
}

impl vstd::std_specs::cmp::PartialEqSpecImpl for StateId {
    open spec fn obeys_eq_spec() -> bool {
        true
    }

    open spec fn eq_spec(&self, other: &StateId) -> bool {
        self.0@ == other.0@
    }
}

/// The shape of a fresh instance segment: 36 characters, each a word
/// character or a dash, starting with a word character, free of separators.
pub open spec fn instance_wf(u: Seq<char>) -> bool {
    &&& u.len() == 36
    &&& is_word_char(u[0])
    &&& forall|i: int| 0 <= i < u.len() ==> ((is_word_char(#[trigger] u[i]) || u[i] == '-') && u[i]
        != '/')
}

/// Relies on uuid::Uuid::new_v4 and its `Display` form: a fresh random UUID
/// rendered as 36 lowercase hexadecimal digits and dashes. The result is
/// random, so only its shape is stated: hexadecimal digits are alphanumeric
/// and the four dashes sit between them.
#[verifier::external_body]
fn fresh_instance_segment() -> (r: String)
    ensures
        instance_wf(r@),
{
    uuid::Uuid::new_v4().to_string()
}

/// The characters a single path segment may hold: word-initial, continued by
/// tail characters, no separator anywhere.
pub open spec fn segment_chars_ok(u: Seq<char>) -> bool {
    &&& u.len() > 0
    &&& is_word_char(u[0]) && u[0] != '/'
    &&& forall|i: int| 1 <= i < u.len() ==> (is_tail_char(#[trigger] u[i]) && u[i] != '/')
}

pub proof fn lemma_instance_wf_chars(u: Seq<char>)
    requires
        instance_wf(u),
    ensures
        segment_chars_ok(u),
{
    assert forall|i: int| 1 <= i < u.len() implies (is_tail_char(#[trigger] u[i]) && u[i] != '/') by {
        assert((is_word_char(u[i]) || u[i] == '-') && u[i] != '/');
    }
}

/// Composing `sms:///`, a segment and a valid node path yields a well-formed
/// instance address whose instance segment is exactly that segment.
pub proof fn lemma_instance_address(u: Seq<char>, p: Seq<char>)
    requires
        segment_chars_ok(u),
        valid_node_path(p),
    ensures
        state_text_wf(sms_prefix() + u + seq!['/'] + p),
        instance_of(sms_prefix() + u + seq!['/'] + p) == u,
{
    let t = sms_prefix() + u + seq!['/'] + p;
    let ul = u.len() as int;
    assert(t.len() == 7 + ul + 1 + p.len());
    assert(t.subrange(0, 7) =~= sms_prefix());
    let b = t.skip(7);
    assert(b.len() == ul + 1 + p.len());
    assert forall|k: int| 0 <= k < b.len() implies b[k] == (if k < ul {
        u[k]
    } else if k == ul {
        '/'
    } else {
        p[k - ul - 1]
    }) by {
        assert(b[k] == t[7 + k]);
    }
    assert(b[0] == u[0]);
    assert(b[b.len() - 1] == p[p.len() - 1]);
    assert forall|i: int| 1 <= i < b.len() implies sep_ok(b[i - 1], #[trigger] b[i]) by {
        if i < ul {
            assert(is_tail_char(u[i]) && u[i] != '/');
            assert(u[i - 1] != '/');
        } else if i == ul {
            assert(u[i - 1] != '/');
        } else if i == ul + 1 {
            assert(is_letter(p[0]));
            assert(p[0] != '/');
        } else {
            assert(sep_ok(p[i - ul - 2], p[i - ul - 1]));
        }
    }
    assert(valid_segments(b));
    assert forall|j: int| 0 <= j < ul implies b[j] != '/' by {
        if j == 0 {
        } else {
            assert(b[j] == u[j]);
        }
    }
    assert(b[ul] == '/');
    lemma_seg_end_unique(b, ul);
    assert(b.take(ul) =~= u);
}

/// The instance segment of a well-formed instance address is itself a
/// well-shaped segment.
pub proof fn lemma_instance_of_wf(t: Seq<char>)
    requires
        state_text_wf(t),
    ensures
        segment_chars_ok(instance_of(t)),
{
    let b = t.skip(7);
    lemma_seg_end(b);
    let e = seg_end(b);
    let u = b.take(e);
    assert(e > 0) by {
        if e == 0 {
            assert(b[0] == '/');
        }
    }
    assert(u[0] == b[0]);
    assert forall|i: int| 1 <= i < u.len() implies (is_tail_char(#[trigger] u[i]) && u[i] != '/') by {
        assert(u[i] == b[i]);
        assert(u[i - 1] == b[i - 1]);
        assert(b[i - 1] != '/');
        assert(sep_ok(b[i - 1], b[i]));
    }
}

impl StateId {
    /// A placeholder instance address.
    pub fn default() -> (r: Self)
        ensures
            r.0@ == "sms:///de4ult"@,
    {
        StateId(String::from_str("sms:///de4ult"))
    }

    /// Creates a new state id from the provided node id, minting a fresh
    /// instance segment. The assumption is that the node id is the id of the
    /// state chart.
    pub fn new(node_id: &NodeId) -> (r: Result<Self, StateChartError>)
        ensures
            node_text_wf(node_id.0@) ==> (r matches Ok(s) && {
                let t = s.0@;
                &&& state_text_wf(t)
                &&& instance_wf(instance_of(t))
                &&& t == sms_prefix() + instance_of(t) + seq!['/'] + node_id.0@.skip(7)
            }),
            !node_text_wf(node_id.0@) ==> (r matches Err(e) && e matches
                StateChartError::InvalidNodeId(n) && n == *node_id),
    {
        let p = match node_id.path() {
            Ok(p) => p,
            Err(e) => {
                return Err(e);
            },
        };
        let u = fresh_instance_segment();
        let mut s = String::from_str("sms:///");
        s.append(u.as_str());
        s.append("/");
        s.append(p);
        proof {
            reveal_strlit("sms:///");
            reveal_strlit("/");
            assert("sms:///"@ =~= sms_prefix());
            assert("/"@ =~= seq!['/']);
            lemma_instance_wf_chars(u@);
            lemma_instance_address(u@, node_id.0@.skip(7));
            assert(s@ =~= sms_prefix() + u@ + seq!['/'] + node_id.0@.skip(7));
        }
        Ok(StateId(s))
    }

    /// Creates a new state id from a given state id and a node id: the
    /// parent's instance segment with the node's path, addressing a substate
    /// of the same machine.
    pub fn new_with_node(machine: &StateId, node_id: &NodeId) -> (r: Result<
        Self,
        StateChartError,
    >)
        ensures
            state_text_wf(machine.0@) && node_text_wf(node_id.0@) ==> (r matches Ok(s) && {
                let t = s.0@;
                &&& t == sms_prefix() + instance_of(machine.0@) + seq!['/'] + node_id.0@.skip(7)
                &&& state_text_wf(t)
                &&& instance_of(t) == instance_of(machine.0@)
            }),
            !state_text_wf(machine.0@) ==> (r matches Err(e) && e matches
                StateChartError::InvalidStateId(m) && m == *machine),
            state_text_wf(machine.0@) && !node_text_wf(node_id.0@) ==> (r matches Err(e)
                && e matches StateChartError::InvalidNodeId(n) && n == *node_id),
    {
        let u = match machine.id() {
            Ok(u) => u,
            Err(e) => {
                return Err(e);
            },
        };
        let p = match node_id.path() {
            Ok(p) => p,
            Err(e) => {
                return Err(e);
            },
        };
        let mut s = String::from_str("sms:///");
        s.append(u.as_str());
        s.append("/");
        s.append(p);
        proof {
            reveal_strlit("sms:///");
            reveal_strlit("/");
            assert("sms:///"@ =~= sms_prefix());
            assert("/"@ =~= seq!['/']);
            lemma_instance_of_wf(machine.0@);
            lemma_instance_address(u@, node_id.0@.skip(7));
            assert(s@ =~= sms_prefix() + u@ + seq!['/'] + node_id.0@.skip(7));
        }
        Ok(StateId(s))
    }

    /// The instance segment of this address. Validation happens here: a text
    /// that does not match the `sms:///...` pattern is rejected, exactly
    /// then.
    pub fn id(&self) -> (r: Result<String, StateChartError>)
        ensures
            state_text_wf(self.0@) ==> (r matches Ok(u) && u@ == instance_of(self.0@)),
            !state_text_wf(self.0@) ==> (r matches Err(e) && e matches
                StateChartError::InvalidStateId(m) && m == *self),
    {
        let s = self.0.as_str();
        let n = s.unicode_len();
        if n <= 7 {
            return Err(StateChartError::InvalidStateId(self.clone()));
        }
        if !check_prefix(s, 'm') {
            return Err(StateChartError::InvalidStateId(self.clone()));
        }
        if !check_segments_from(s, 7) {
            return Err(StateChartError::InvalidStateId(self.clone()));
        }
        // find the end of the instance segment
        let mut k: usize = 7;
        while k < n && s.get_char(k) != '/'
            invariant
                7 <= k <= n,
                n == s@.len(),
                forall|j: int| 7 <= j < k ==> s@[j] != '/',
            decreases n - k,
        {
            k += 1;
        }
        proof {
            let b = self.0@.skip(7);
            assert forall|j: int| 0 <= j < k - 7 implies b[j] != '/' by {
                assert(b[j] == self.0@[7 + j]);
            }
            if k < n {
                assert(b[k - 7] == self.0@[k as int]);
            }
            lemma_seg_end_unique(b, k - 7);
            assert(self.0@.subrange(7, k as int) =~= b.take(k - 7));
        }
        Ok(s.substring_char(7, k).to_owned())
    }
}

// ---------------------------------------------------------------------------
// Laws of the identifier scheme
// ---------------------------------------------------------------------------
/// For every valid node path, prefixing the scheme and reading the path back
/// is the identity; for every other text the composed address is ill-formed,
/// so reading it back fails.
pub proof fn lemma_node_path_round_trip(p: Seq<char>)
    ensures
        node_text_wf(scn_prefix() + p) <==> valid_node_path(p),
        (scn_prefix() + p).skip(7) == p,
{
    let t = scn_prefix() + p;
    assert(t.skip(7) =~= p);
    if valid_node_path(p) {
        assert(t.subrange(0, 7) =~= scn_prefix());
    }
}

} // verus!
