//! The per-request transaction state: attributes, error annotations, the
//! end of the transaction, and how segments are dispatched.
use vstd::prelude::*;

verus! {

/// A value attached to a transaction under a key.
#[derive(Clone, Debug)]
pub enum Attribute {
    /// A short integer.
    Int(i32),
    /// A long integer.
    Long(i64),
    /// A string.
    Text(String),
}

/// An error annotation recorded on a transaction.
pub struct ErrorNote {
    /// Priority handed to the backend.
    pub priority: i32,
    /// Human-readable message.
    pub message: String,
    /// Error class.
    pub class: String,
}

/// Last-write-wins view of a list of key/value pairs.
pub open spec fn attr_map(s: Seq<(String, Attribute)>) -> Map<Seq<char>, Attribute>
    decreases s.len(),
{
    if s.len() == 0 {
        Map::empty()
    } else {
        attr_map(s.drop_last()).insert(s.last().0@, s.last().1)
    }
}

/// No key occurs twice.
pub open spec fn keys_unique(s: Seq<(String, Attribute)>) -> bool {
    forall|i: int, j: int| 0 <= i < j < s.len() ==> s[i].0@ != s[j].0@
}

proof fn lemma_attr_map_update(s: Seq<(String, Attribute)>, i: int, x: (String, Attribute))
    requires
        keys_unique(s),
        0 <= i < s.len(),
        s[i].0@ == x.0@,
    ensures
        attr_map(s.update(i, x)) == attr_map(s).insert(x.0@, x.1),
    decreases s.len(),
{
    let t = s.update(i, x);
    if i == s.len() - 1 {
        assert(t.drop_last() =~= s.drop_last());
        assert(attr_map(t) =~= attr_map(s).insert(x.0@, x.1));
    } else {
        assert(t.drop_last() =~= s.drop_last().update(i, x));
        lemma_attr_map_update(s.drop_last(), i, x);
        assert(s.last().0@ != x.0@);
        assert(attr_map(t) =~= attr_map(s).insert(x.0@, x.1));
    }
}

proof fn lemma_attr_map_at(s: Seq<(String, Attribute)>, i: int)
    requires
        keys_unique(s),
        0 <= i < s.len(),
    ensures
        attr_map(s).contains_key(s[i].0@),
        attr_map(s)[s[i].0@] == s[i].1,
    decreases s.len(),
{
    if i < s.len() - 1 {
        lemma_attr_map_at(s.drop_last(), i);
        assert(s.last().0@ != s[i].0@);
    }
}

proof fn lemma_attr_map_absent(s: Seq<(String, Attribute)>, k: Seq<char>)
    requires
        forall|j: int| 0 <= j < s.len() ==> s[j].0@ != k,
    ensures
        !attr_map(s).contains_key(k),
    decreases s.len(),
{
    if s.len() > 0 {
        assert(s.last().0@ != k);
        lemma_attr_map_absent(s.drop_last(), k);
    }
}

/// A live transaction of the backend.
pub struct InnerTransaction {
    name: String,
    attributes: Vec<(String, Attribute)>,
    errors: Vec<ErrorNote>,
    ended: bool,
}

/// The transaction of one request.
pub enum Transaction {
    /// A transaction that the backend started.
    Running(InnerTransaction),
    /// The backend could not start one: every operation is a no-op.
    Inert,
}

/// One named, timed operation inside a transaction.
pub enum SegmentKind {
    /// A custom segment with a name and a category.
    Custom { name: String, category: String },
    /// A datastore call.
    Datastore { datastore: Datastore, table: String, operation: String, query: String },
    /// A call to an external service.
    External { host: String, procedure: Option<String>, library: Option<String> },
}

/// How a segment's body is to be run.
pub enum SegmentPlan {
    /// Inside a backend segment of this kind.
    Traced(SegmentKind),
    /// Directly, with a no-op segment context.
    PassThrough,
}

/// The datastore products that a datastore segment can name.
#[derive(Clone, Copy, Debug, PartialEq, Eq, Structural)]
pub enum Datastore {
    Firebird,
    Informix,
    MSSQL,
    MySQL,
    Oracle,
    Postgres,
    SQLite,
    Sybase,
    Memcached,
    MongoDB,
    ODBC,
    Redis,
    Other,
}

/// `Some(s@)` for `Some(s)`.
pub open spec fn opt_view(o: Option<&str>) -> Option<Seq<char>> {
    match o {
        Some(s) => Some(s@),
        None => None,
    }
}

/// `Some(s@)` for `Some(s)`.
pub open spec fn opt_string_view(o: Option<String>) -> Option<Seq<char>> {
    match o {
        Some(s) => Some(s@),
        None => None,
    }
}

fn opt_to_string(o: Option<&str>) -> (r: Option<String>)
    ensures
        opt_string_view(r) == opt_view(o),
{
    match o {
        Some(s) => Some(String::from_str(s)),
        None => None,
    }
}

impl Transaction {
    /// Well-formed: no attribute key is stored twice.
    pub closed spec fn wf(&self) -> bool {
        match self {
            Transaction::Running(t) => keys_unique(t.attributes@),
            Transaction::Inert => true,
        }
    }

    /// The backend started the transaction and it has not ended.
    pub closed spec fn is_traced(&self) -> bool {
        match self {
            Transaction::Running(t) => !t.ended,
            Transaction::Inert => false,
        }
    }

    /// The transaction has been ended.
    pub closed spec fn is_ended(&self) -> bool {
        match self {
            Transaction::Running(t) => t.ended,
            Transaction::Inert => false,
        }
    }

    /// The transaction's name (empty for an inert one).
    pub closed spec fn name(&self) -> Seq<char> {
        match self {
            Transaction::Running(t) => t.name@,
            Transaction::Inert => Seq::empty(),
        }
    }

    /// The attributes recorded so far.
    pub closed spec fn attributes(&self) -> Map<Seq<char>, Attribute> {
        match self {
            Transaction::Running(t) => attr_map(t.attributes@),
            Transaction::Inert => Map::empty(),
        }
    }

    /// The error annotations recorded so far, in order.
    pub closed spec fn errors(&self) -> Seq<ErrorNote> {
        match self {
            Transaction::Running(t) => t.errors@,
            Transaction::Inert => Seq::empty(),
        }
    }

    /// The transaction for a request once the backend has been asked to start
    /// one named `name`: `started` says whether it did. A started one records
    /// the request's `uri` at once.
    pub fn new(name: String, uri: &str, started: bool) -> (r: Transaction)
        ensures
            r.wf(),
            started ==> r is Running,
            !started ==> r is Inert,
            started ==> r.is_traced() && r.name() == name@ && r.errors().len() == 0
                && r.attributes().dom() == set![uri_key()] && text_is(
                r.attributes()[uri_key()],
                uri@,
            ),
    {
        if started {
            let key = "uri";
            proof {
                reveal_strlit("uri");
                assert(key@ =~= uri_key());
            }
            let mut attributes: Vec<(String, Attribute)> = Vec::new();
            attributes.push((String::from_str(key), Attribute::Text(String::from_str(uri))));
            proof {
                assert(attributes@.drop_last() =~= Seq::<(String, Attribute)>::empty());
                assert(attr_map(attributes@.drop_last()) == Map::<Seq<char>, Attribute>::empty());
                assert(attr_map(attributes@) == Map::<Seq<char>, Attribute>::empty().insert(
                    uri_key(),
                    attributes@.last().1,
                ));
                assert(attr_map(attributes@).dom() =~= set![uri_key()]);
            }
            Transaction::Running(
                InnerTransaction { name, attributes, errors: Vec::new(), ended: false },
            )
        } else {
            Transaction::Inert
        }
    }
}

/// `a` is a string attribute holding `v`.
pub open spec fn text_is(a: Attribute, v: Seq<char>) -> bool {
    match a {
        Attribute::Text(s) => s@ == v,
        _ => false,
    }
}


impl InnerTransaction {
    fn put_attribute(&mut self, key: &str, attribute: Attribute)
        requires
            keys_unique(old(self).attributes@),
        ensures
            keys_unique(final(self).attributes@),
            final(self).name == old(self).name,
            final(self).errors == old(self).errors,
            final(self).ended == old(self).ended,
            attr_map(final(self).attributes@) == attr_map(old(self).attributes@).insert(
                key@,
                attribute,
            ),
    {
        let k = String::from_str(key);
        let n = self.attributes.len();
        let mut i: usize = 0;
        while i < n
            invariant
                n == self.attributes@.len(),
                i <= n,
                k@ == key@,
                *self == *old(self),
                keys_unique(self.attributes@),
                forall|j: int| 0 <= j < i ==> self.attributes@[j].0@ != key@,
            decreases n - i,
        {
            if self.attributes[i].0 == k {
                proof {
                    lemma_attr_map_update(self.attributes@, i as int, (k, attribute));
                }
                self.attributes.set(i, (k, attribute));
                proof {
                    assert(keys_unique(self.attributes@));
                }
                return;
            }
            i = i + 1;
        }
        let ghost before = self.attributes@;
        self.attributes.push((k, attribute));
        proof {
            assert(self.attributes@.drop_last() =~= before);
        }
    }
}

impl Transaction {
    /// Attach `attribute` under `key`; a later value for the same key
    /// replaces an earlier one. Only a traced transaction records it; the
    /// result says whether the backend is to be given the pair.
    pub fn add_attribute(&mut self, key: &str, attribute: Attribute) -> (forward: bool)
        requires
            old(self).wf(),
        ensures
            final(self).wf(),
            forward == old(self).is_traced(),
            final(self).is_traced() == old(self).is_traced(),
            final(self).is_ended() == old(self).is_ended(),
            final(self).name() == old(self).name(),
            final(self).errors() == old(self).errors(),
            ((*final(self)) is Running) == ((*old(self)) is Running),
            forward ==> final(self).attributes() == old(self).attributes().insert(key@, attribute),
            !forward ==> final(self).attributes() == old(self).attributes(),
            attribute_step(*old(self), *final(self), key@, attribute),
    {
        match self {
            Transaction::Running(t) => {
                if t.ended {
                    false
                } else {
                    t.put_attribute(key, attribute);
                    true
                }
            },
            Transaction::Inert => false,
        }
    }
}


impl Transaction {
    /// Record an error annotation. Only a traced transaction records it; the
    /// result says whether the backend is to be given it.
    pub fn notice_error(&mut self, priority: i32, message: String, class: String) -> (forward: bool)
        requires
            old(self).wf(),
        ensures
            final(self).wf(),
            forward == old(self).is_traced(),
            final(self).is_traced() == old(self).is_traced(),
            final(self).is_ended() == old(self).is_ended(),
            final(self).name() == old(self).name(),
            final(self).attributes() == old(self).attributes(),
            ((*final(self)) is Running) == ((*old(self)) is Running),
            forward ==> final(self).errors() == old(self).errors().push(
                ErrorNote { priority, message, class },
            ),
            !forward ==> final(self).errors() == old(self).errors(),
    {
        match self {
            Transaction::Running(t) => {
                if t.ended {
                    false
                } else {
                    t.errors.push(ErrorNote { priority, message, class });
                    true
                }
            },
            Transaction::Inert => false,
        }
    }

    /// End the transaction. The result says whether the backend is to
    /// finalise it: only the first call on a running transaction does; any
    /// later call, and any call on an inert one, changes nothing.
    pub fn end(&mut self) -> (finalize: bool)
        requires
            old(self).wf(),
        ensures
            final(self).wf(),
            finalize == old(self).is_traced(),
            !final(self).is_traced(),
            final(self).is_ended() == ((*old(self)) is Running),
            ((*final(self)) is Running) == ((*old(self)) is Running),
            final(self).name() == old(self).name(),
            final(self).attributes() == old(self).attributes(),
            final(self).errors() == old(self).errors(),
            end_step(*old(self), *final(self), finalize),
    {
        match self {
            Transaction::Running(t) => {
                if t.ended {
                    false
                } else {
                    t.ended = true;
                    true
                }
            },
            Transaction::Inert => false,
        }
    }

    /// Plan a custom segment named `name` in `category`.
    pub fn custom_segment(&self, name: &str, category: &str) -> (r: SegmentPlan)
        ensures
            !self.is_traced() ==> r is PassThrough,
            self.is_traced() ==> (match r {
                SegmentPlan::Traced(SegmentKind::Custom { name: n, category: c }) => n@ == name@
                    && c@ == category@,
                _ => false,
            }),
    {
        if self.traced() {
            SegmentPlan::Traced(
                SegmentKind::Custom {
                    name: String::from_str(name),
                    category: String::from_str(category),
                },
            )
        } else {
            SegmentPlan::PassThrough
        }
    }

    /// Plan a datastore segment: `operation` on `table` of `datastore`, with
    /// the query text `sql` (the backend replaces its literals before
    /// reporting it). `table` must not contain `'/'`; the backend enforces it.
    pub fn datastore_segment(
        &self,
        datastore: Datastore,
        table: &str,
        operation: &str,
        sql: &str,
    ) -> (r: SegmentPlan)
        ensures
            !self.is_traced() ==> r is PassThrough,
            self.is_traced() ==> (match r {
                SegmentPlan::Traced(
                    SegmentKind::Datastore { datastore: d, table: t, operation: o, query: q },
                ) => d == datastore && t@ == table@ && o@ == operation@ && q@ == sql@,
                _ => false,
            }),
    {
        if self.traced() {
            SegmentPlan::Traced(
                SegmentKind::Datastore {
                    datastore,
                    table: String::from_str(table),
                    operation: String::from_str(operation),
                    query: String::from_str(sql),
                },
            )
        } else {
            SegmentPlan::PassThrough
        }
    }

    /// Plan an external segment to `host`, naming the `procedure` called and
    /// the `library` used where given; neither may contain `'/'`.
    pub fn external_segment(
        &self,
        host: &str,
        procedure: Option<&str>,
        library: Option<&str>,
    ) -> (r: SegmentPlan)
        ensures
            !self.is_traced() ==> r is PassThrough,
            self.is_traced() ==> (match r {
                SegmentPlan::Traced(SegmentKind::External { host: h, procedure: p, library: l }) =>
                    h@ == host@ && opt_string_view(p) == opt_view(procedure) && opt_string_view(l)
                    == opt_view(library),
                _ => false,
            }),
    {
        if self.traced() {
            SegmentPlan::Traced(
                SegmentKind::External {
                    host: String::from_str(host),
                    procedure: opt_to_string(procedure),
                    library: opt_to_string(library),
                },
            )
        } else {
            SegmentPlan::PassThrough
        }
    }

    /// The value stored under `key`, if any.
    pub fn attribute(&self, key: &str) -> (r: Option<&Attribute>)
        requires
            self.wf(),
        ensures
            match r {
                Some(a) => self.attributes().contains_key(key@) && self.attributes()[key@] == *a,
                None => !self.attributes().contains_key(key@),
            },
    {
        match self {
            Transaction::Running(t) => {
                let k = String::from_str(key);
                let n = t.attributes.len();
                let mut i: usize = 0;
                while i < n
                    invariant
                        k@ == key@,
                        self.attributes() == attr_map(t.attributes@),
                        n == t.attributes@.len(),
                        i <= n,
                        keys_unique(t.attributes@),
                        forall|j: int| 0 <= j < i ==> t.attributes@[j].0@ != key@,
                    decreases n - i,
                {
                    if t.attributes[i].0 == k {
                        proof {
                            lemma_attr_map_at(t.attributes@, i as int);
                        }
                        return Some(&t.attributes[i].1);
                    }
                    i = i + 1;
                }
                proof {
                    lemma_attr_map_absent(t.attributes@, key@);
                }
                None
            },
            Transaction::Inert => None,
        }
    }

    /// Whether the backend started this transaction and it has not ended.
    pub fn traced(&self) -> (r: bool)
        ensures
            r == self.is_traced(),
    {
        match self {
            Transaction::Running(t) => !t.ended,
            Transaction::Inert => false,
        }
    }
}


/// What one `add_attribute` call does to the attributes: a traced
/// transaction stores the pair, an untraced one keeps what it had.
pub open spec fn attribute_step(t0: Transaction, t1: Transaction, key: Seq<char>, attribute: Attribute) -> bool {
    &&& t1.is_traced() == t0.is_traced()
    &&& t0.is_traced() ==> t1.attributes() == t0.attributes().insert(key, attribute)
    &&& !t0.is_traced() ==> t1.attributes() == t0.attributes()
}

/// What one `end` call does: the backend is told to finalise only if the
/// transaction was still traced, and it is not traced afterwards.
pub open spec fn end_step(t0: Transaction, t1: Transaction, finalize: bool) -> bool {
    &&& finalize == t0.is_traced()
    &&& !t1.is_traced()
    &&& t1.is_ended() == (t0 is Running)
    &&& t1.attributes() == t0.attributes()
    &&& t1.errors() == t0.errors()
}

/// The attributes of `m` after storing each pair of `ops` in turn.
pub open spec fn apply_attributes(
    m: Map<Seq<char>, Attribute>,
    ops: Seq<(Seq<char>, Attribute)>,
) -> Map<Seq<char>, Attribute>
    decreases ops.len(),
{
    if ops.len() == 0 {
        m
    } else {
        apply_attributes(m, ops.drop_last()).insert(ops.last().0, ops.last().1)
    }
}

/// No pair of `ops` has the key `k`.
pub open spec fn never_written(ops: Seq<(Seq<char>, Attribute)>, k: Seq<char>) -> bool {
    forall|l: int| 0 <= l < ops.len() ==> ops[l].0 != k
}

/// `m0` and `m1` agree at `k`: both lack it, or both map it to one value.
pub open spec fn same_at(m0: Map<Seq<char>, Attribute>, m1: Map<Seq<char>, Attribute>, k: Seq<char>) -> bool {
    &&& m1.contains_key(k) == m0.contains_key(k)
    &&& m0.contains_key(k) ==> m1[k] == m0[k]
}

/// `j` is the last position of `ops` whose key is `k`.
pub open spec fn is_last_write(ops: Seq<(Seq<char>, Attribute)>, k: Seq<char>, j: int) -> bool {
    &&& 0 <= j < ops.len()
    &&& ops[j].0 == k
    &&& forall|l: int| j < l < ops.len() ==> ops[l].0 != k
}

proof fn lemma_apply_last_write(m: Map<Seq<char>, Attribute>, ops: Seq<(Seq<char>, Attribute)>, k: Seq<char>)
    ensures
        forall|j: int| is_last_write(ops, k, j) ==> apply_attributes(m, ops).contains_key(k)
            && apply_attributes(m, ops)[k] == ops[j].1,
        never_written(ops, k) ==> same_at(m, apply_attributes(m, ops), k),
    decreases ops.len(),
{
    if ops.len() > 0 {
        let init = ops.drop_last();
        lemma_apply_last_write(m, init, k);
        assert forall|j: int| is_last_write(ops, k, j) implies apply_attributes(m, ops).contains_key(k)
            && apply_attributes(m, ops)[k] == ops[j].1 by {
            if j < ops.len() - 1 {
                assert(ops[ops.len() - 1].0 != k);
                assert(is_last_write(init, k, j));
            }
        }
        if never_written(ops, k) {
            assert(ops[ops.len() - 1].0 != k);
            assert forall|l: int| 0 <= l < init.len() implies init[l].0 != k by {
                assert(init[l] == ops[l]);
            }
        }
    }
}

/// Last write wins: after a run of `add_attribute` calls on a traced
/// transaction (`ts[i]` before call `i`, which stores `ops[i]`), each key
/// written holds the value of its last write, and every other key keeps
/// what it held before.
pub proof fn lemma_attributes_last_write_wins(
    ts: Seq<Transaction>,
    ops: Seq<(Seq<char>, Attribute)>,
)
    requires
        ts.len() == ops.len() + 1,
        ts[0].is_traced(),
        forall|i: int| 0 <= i < ops.len() ==> attribute_step(ts[i], ts[i + 1], ops[i].0, ops[i].1),
    ensures
        ts.last().attributes() == apply_attributes(ts[0].attributes(), ops),
        forall|k: Seq<char>, j: int| is_last_write(ops, k, j) ==> ts.last().attributes().contains_key(k)
            && ts.last().attributes()[k] == ops[j].1,
        forall|k: Seq<char>| never_written(ops, k) ==> same_at(ts[0].attributes(), ts.last().attributes(), k),
    decreases ops.len(),
{
    if ops.len() > 0 {
        let n = ops.len() - 1;
        let ts0 = ts.drop_last();
        let ops0 = ops.drop_last();
        assert forall|i: int| 0 <= i < ops0.len() implies attribute_step(ts0[i], ts0[i + 1], ops0[i].0, ops0[i].1) by {
            assert(attribute_step(ts[i], ts[i + 1], ops[i].0, ops[i].1));
        }
        lemma_attributes_last_write_wins(ts0, ops0);
        assert forall|i: int| 0 <= i <= n implies ts[i].is_traced() by {
            lemma_traced_prefix(ts, ops, i);
        }
        assert(attribute_step(ts[n], ts[n + 1], ops[n].0, ops[n].1));
    }
    let m = ts[0].attributes();
    assert(ts.last().attributes() == apply_attributes(m, ops));
    assert forall|k: Seq<char>, j: int| is_last_write(ops, k, j) implies ts.last().attributes().contains_key(k)
        && ts.last().attributes()[k] == ops[j].1 by {
        lemma_apply_last_write(m, ops, k);
    }
    assert forall|k: Seq<char>| never_written(ops, k) implies same_at(m, ts.last().attributes(), k) by {
        lemma_apply_last_write(m, ops, k);
    }
}

proof fn lemma_traced_prefix(ts: Seq<Transaction>, ops: Seq<(Seq<char>, Attribute)>, i: int)
    requires
        ts.len() == ops.len() + 1,
        ts[0].is_traced(),
        forall|m: int| 0 <= m < ops.len() ==> attribute_step(ts[m], ts[m + 1], ops[m].0, ops[m].1),
        0 <= i < ts.len(),
    ensures
        ts[i].is_traced(),
    decreases i,
{
    if i > 0 {
        lemma_traced_prefix(ts, ops, i - 1);
        assert(attribute_step(ts[i - 1], ts[i], ops[i - 1].0, ops[i - 1].1));
    }
}

/// Ending is idempotent: of two `end` calls in a row, the second never asks
/// the backend to finalise and changes none of the transaction's records, so
/// the backend finalises at most once.
pub proof fn lemma_end_idempotent(
    t0: Transaction,
    t1: Transaction,
    t2: Transaction,
    first: bool,
    second: bool,
)
    requires
        end_step(t0, t1, first),
        end_step(t1, t2, second),
    ensures
        !second,
        !(first && second),
        !t2.is_traced(),
        t2.attributes() == t0.attributes(),
        t2.errors() == t0.errors(),
{
}

/// An inert transaction is never traced and holds no records, so every
/// operation on it (attributes, the three segment kinds, errors, `end`)
/// leaves it as it is and runs segment bodies directly.
pub proof fn lemma_inert_is_pass_through()
    ensures
        !Transaction::Inert.is_traced(),
        !Transaction::Inert.is_ended(),
        Transaction::Inert.attributes() == Map::<Seq<char>, Attribute>::empty(),
        Transaction::Inert.errors() == Seq::<ErrorNote>::empty(),
        Transaction::Inert.wf(),
{
}

/// An inert transaction is well formed.
pub(crate) proof fn lemma_inert_wf()
    ensures
        Transaction::Inert.wf(),
{
}

/// The key under which a transaction records its request's URI.
pub open spec fn uri_key() -> Seq<char> {
    seq!['u', 'r', 'i']
}

} // verus!
