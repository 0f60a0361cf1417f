//! The error-code catalogue of the HTTP API.
//!
//! A catalogue belongs to one module (`user`, ...) with an index. It declares
//! public error groups, each numbered consecutively from its own base, and
//! endpoints. An endpoint lists the public groups it shares and its own
//! errors; its own errors are numbered from `(index * 100 + position) * 100`
//! in steps of ten. Every error carries the message `/module/owner/item`.
use vstd::prelude::*;
use crate::decimal::{decimal, push_decimal};

verus! {

/// One error: its number and its path-like message.
#[derive(Debug)]
pub struct ErrorCode {
    pub code: u32,
    pub msg: String,
}

/// The mathematical value of an [`ErrorCode`].
pub struct ErrorCodeView {
    pub code: int,
    pub msg: Seq<char>,
}

impl View for ErrorCode {
    type V = ErrorCodeView;

    open spec fn view(&self) -> ErrorCodeView {
        ErrorCodeView { code: self.code as int, msg: self.msg@ }
    }
}

/// One line of the catalogue's documentation: an error and where it is used
/// (`public` for the errors of a public group, else the endpoint's name).
#[derive(Debug)]
pub struct Document {
    pub err: ErrorCode,
    pub endpoint: String,
}

/// The mathematical value of a [`Document`].
pub struct DocumentView {
    pub code: int,
    pub endpoint: Seq<char>,
    pub msg: Seq<char>,
}

impl View for Document {
    type V = DocumentView;

    open spec fn view(&self) -> DocumentView {
        DocumentView { code: self.err.code as int, endpoint: self.endpoint@, msg: self.err.msg@ }
    }
}

/// A public error group: `pub Name = base { item, ... }`.
pub struct ErrorGroup {
    pub name: String,
    pub base: u32,
    pub items: Vec<String>,
}

/// The mathematical value of an [`ErrorGroup`].
pub struct GroupView {
    pub name: Seq<char>,
    pub base: int,
    pub items: Seq<Seq<char>>,
}

pub open spec fn strings_view(s: Seq<String>) -> Seq<Seq<char>> {
    s.map_values(|x: String| x@)
}

impl View for ErrorGroup {
    type V = GroupView;

    open spec fn view(&self) -> GroupView {
        GroupView { name: self.name@, base: self.base as int, items: strings_view(self.items@) }
    }
}

/// One entry of an endpoint: a shared public group (`use Group`) or an
/// error of the endpoint's own.
pub enum EndpointEntry {
    Shared(String),
    Own(String),
}

/// The mathematical value of an [`EndpointEntry`].
pub enum EntryView {
    Shared(Seq<char>),
    Own(Seq<char>),
}

impl View for EndpointEntry {
    type V = EntryView;

    open spec fn view(&self) -> EntryView {
        match self {
            EndpointEntry::Shared(n) => EntryView::Shared(n@),
            EndpointEntry::Own(n) => EntryView::Own(n@),
        }
    }
}

/// An endpoint and its entries, in the order they are declared.
pub struct Endpoint {
    pub name: String,
    pub entries: Vec<EndpointEntry>,
}

/// The mathematical value of an [`Endpoint`].
pub struct EndpointView {
    pub name: Seq<char>,
    pub entries: Seq<EntryView>,
}

pub open spec fn entries_view(s: Seq<EndpointEntry>) -> Seq<EntryView> {
    s.map_values(|x: EndpointEntry| x@)
}

impl View for Endpoint {
    type V = EndpointView;

    open spec fn view(&self) -> EndpointView {
        EndpointView { name: self.name@, entries: entries_view(self.entries@) }
    }
}

pub open spec fn groups_view(s: Seq<ErrorGroup>) -> Seq<GroupView> {
    s.map_values(|x: ErrorGroup| x@)
}

pub open spec fn endpoints_view(s: Seq<Endpoint>) -> Seq<EndpointView> {
    s.map_values(|x: Endpoint| x@)
}

pub open spec fn docs_view(s: Seq<Document>) -> Seq<DocumentView> {
    s.map_values(|x: Document| x@)
}

pub open spec fn codes_view(s: Seq<ErrorCode>) -> Seq<ErrorCodeView> {
    s.map_values(|x: ErrorCode| x@)
}

/// The message of an error: `/module/owner/item`.
pub open spec fn err_msg(module: Seq<char>, owner: Seq<char>, item: Seq<char>) -> Seq<char> {
    seq!['/'] + module + seq!['/'] + owner + seq!['/'] + item
}

/// The place name under which public errors are documented.
pub open spec fn public_label() -> Seq<char> {
    seq!['p', 'u', 'b', 'l', 'i', 'c']
}

/// The `k`-th error of a public group: numbered `base + k`.
pub open spec fn group_error(module: Seq<char>, g: GroupView, k: int) -> ErrorCodeView {
    ErrorCodeView { code: g.base + k, msg: err_msg(module, g.name, g.items[k]) }
}

/// All errors of a public group, in declaration order.
pub open spec fn group_errors(module: Seq<char>, g: GroupView) -> Seq<ErrorCodeView> {
    Seq::new(g.items.len(), |k: int| group_error(module, g, k))
}

/// The documentation lines of a public group.
pub open spec fn group_docs(module: Seq<char>, g: GroupView) -> Seq<DocumentView> {
    Seq::new(
        g.items.len(),
        |k: int|
            DocumentView {
                code: g.base + k,
                endpoint: public_label(),
                msg: err_msg(module, g.name, g.items[k]),
            },
    )
}

/// The documentation lines of all public groups, group after group.
pub open spec fn public_docs(module: Seq<char>, groups: Seq<GroupView>) -> Seq<DocumentView>
    decreases groups.len(),
{
    if groups.len() == 0 {
        seq![]
    } else {
        public_docs(module, groups.drop_last()) + group_docs(module, groups.last())
    }
}

/// How many errors the groups declare in all.
pub open spec fn public_count(groups: Seq<GroupView>) -> nat
    decreases groups.len(),
{
    if groups.len() == 0 {
        0
    } else {
        public_count(groups.drop_last()) + groups.last().items.len()
    }
}

/// How many of the entries are errors of the endpoint's own.
pub open spec fn own_count(entries: Seq<EntryView>) -> nat
    decreases entries.len(),
{
    if entries.len() == 0 {
        0
    } else {
        own_count(entries.drop_last()) + if entries.last() is Own {
            1nat
        } else {
            0nat
        }
    }
}

/// The number of the first own error of the endpoint at position `j`.
pub open spec fn endpoint_base(index: int, j: int) -> int {
    (index * 100 + j) * 100
}

/// The number of the own error of rank `rank` of the endpoint at position `j`.
pub open spec fn own_code(index: int, j: int, rank: int) -> int {
    endpoint_base(index, j) + 10 * rank
}

/// The documentation lines of an endpoint: one per own error.
pub open spec fn endpoint_docs(
    module: Seq<char>,
    index: int,
    j: int,
    name: Seq<char>,
    entries: Seq<EntryView>,
) -> Seq<DocumentView>
    decreases entries.len(),
{
    if entries.len() == 0 {
        seq![]
    } else {
        let prev = endpoint_docs(module, index, j, name, entries.drop_last());
        match entries.last() {
            EntryView::Own(item) => prev.push(
                DocumentView {
                    code: own_code(index, j, own_count(entries.drop_last()) as int),
                    endpoint: name,
                    msg: err_msg(module, name, item),
                },
            ),
            EntryView::Shared(_) => prev,
        }
    }
}

/// The documentation lines of all endpoints, endpoint after endpoint.
pub open spec fn all_endpoint_docs(
    module: Seq<char>,
    index: int,
    endpoints: Seq<EndpointView>,
) -> Seq<DocumentView>
    decreases endpoints.len(),
{
    if endpoints.len() == 0 {
        seq![]
    } else {
        let j = endpoints.len() - 1;
        all_endpoint_docs(module, index, endpoints.drop_last()) + endpoint_docs(
            module,
            index,
            j,
            endpoints[j].name,
            endpoints[j].entries,
        )
    }
}

/// The mathematical value of a [`CodeBook`].
pub struct CodeBookView {
    pub module: Seq<char>,
    pub index: int,
    pub groups: Seq<GroupView>,
    pub endpoints: Seq<EndpointView>,
}

/// The whole documentation of a catalogue: the public groups first, then the
/// endpoints' own errors.
pub open spec fn spec_err_list(book: CodeBookView) -> Seq<DocumentView> {
    public_docs(book.module, book.groups) + all_endpoint_docs(book.module, book.index, book.endpoints)
}

/// Every number of the group fits in a `u32`.
pub open spec fn group_fits(g: GroupView) -> bool {
    g.items.len() > 0 ==> g.base + g.items.len() - 1 <= u32::MAX
}

/// Some public group has the name `name`.
pub open spec fn names_group(groups: Seq<GroupView>, name: Seq<char>) -> bool {
    exists|g: int| 0 <= g < groups.len() && #[trigger] groups[g].name == name
}

/// Every shared group of the endpoint is declared, and every number of its
/// own errors fits in a `u32`.
pub open spec fn endpoint_valid(groups: Seq<GroupView>, index: int, j: int, ep: EndpointView) -> bool {
    &&& forall|e: int|
        0 <= e < ep.entries.len() ==> (#[trigger] ep.entries[e] matches EntryView::Shared(n)
            ==> names_group(groups, n))
    &&& own_count(ep.entries) > 0 ==> own_code(index, j, own_count(ep.entries) - 1) <= u32::MAX
}

/// A catalogue that can be built: every used group exists and every number
/// fits in a `u32`.
pub open spec fn book_valid(index: int, groups: Seq<GroupView>, endpoints: Seq<EndpointView>) -> bool {
    &&& forall|g: int| 0 <= g < groups.len() ==> group_fits(#[trigger] groups[g])
    &&& forall|j: int| 0 <= j < endpoints.len() ==> endpoint_valid(groups, index, j, #[trigger] endpoints[j])
}


/// No name occurs twice.
pub open spec fn distinct(s: Seq<Seq<char>>) -> bool {
    forall|i: int, j: int| 0 <= i < j < s.len() ==> #[trigger] s[i] != #[trigger] s[j]
}

/// The code of a character with ASCII capitals made small; every other
/// character is kept.
pub open spec fn lower_code(c: char) -> u32 {
    let x = c as u32;
    if 65 <= x <= 90 {
        (x + 32) as u32
    } else {
        x
    }
}

/// The code of a character with ASCII small letters made capital; every
/// other character is kept.
pub open spec fn upper_code(c: char) -> u32 {
    let x = c as u32;
    if 97 <= x <= 122 {
        (x - 32) as u32
    } else {
        x
    }
}

/// A name in small letters, as character codes.
pub open spec fn lower_key(s: Seq<char>) -> Seq<u32> {
    s.map_values(|c: char| lower_code(c))
}

/// A name in capitals, as character codes.
pub open spec fn upper_key(s: Seq<char>) -> Seq<u32> {
    s.map_values(|c: char| upper_code(c))
}

/// No key occurs twice.
pub open spec fn distinct_keys(s: Seq<Seq<u32>>) -> bool {
    forall|i: int, j: int| 0 <= i < j < s.len() ==> #[trigger] s[i] != #[trigger] s[j]
}

/// The name an entry carries: the shared group's or the own error's.
pub open spec fn entry_name(e: EntryView) -> Seq<char> {
    match e {
        EntryView::Shared(n) => n,
        EntryView::Own(n) => n,
    }
}

/// The field names of an endpoint's entries: each entry's name in small
/// letters.
pub open spec fn field_keys(entries: Seq<EntryView>) -> Seq<Seq<u32>> {
    entries.map_values(|e: EntryView| lower_key(entry_name(e)))
}

/// The endpoints' names in capitals, under which their statics are declared.
pub open spec fn static_keys(endpoints: Seq<EndpointView>) -> Seq<Seq<u32>> {
    endpoints.map_values(|e: EndpointView| upper_key(e.name))
}

/// The names of all groups, then of all endpoints.
pub open spec fn top_names(groups: Seq<GroupView>, endpoints: Seq<EndpointView>) -> Seq<Seq<char>> {
    groups.map_values(|g: GroupView| g.name) + endpoints.map_values(|e: EndpointView| e.name)
}

/// Rust's keywords, strict and reserved (edition 2021): no item, field or
/// constant can be named so.
pub open spec fn keywords() -> Seq<Seq<char>> {
    seq![
        "as"@,
        "break"@,
        "const"@,
        "continue"@,
        "crate"@,
        "else"@,
        "enum"@,
        "exter"@ + "n"@,
        "false"@,
        "fn"@,
        "for"@,
        "if"@,
        "impl"@,
        "in"@,
        "let"@,
        "loop"@,
        "match"@,
        "mod"@,
        "move"@,
        "mut"@,
        "pub"@,
        "ref"@,
        "return"@,
        "self"@,
        "Self"@,
        "static"@,
        "struct"@,
        "super"@,
        "trait"@,
        "true"@,
        "type"@,
        "unsafe"@,
        "use"@,
        "where"@,
        "while"@,
        "async"@,
        "await"@,
        "dyn"@,
        "abstract"@,
        "become"@,
        "box"@,
        "do"@,
        "final"@,
        "macro"@,
        "override"@,
        "priv"@,
        "typeof"@,
        "unsized"@,
        "virtual"@,
        "yield"@,
        "try"@,
    ]
}

/// A character that may begin an identifier: an ASCII letter, `_`, or any
/// character beyond ASCII.
pub open spec fn ident_start(c: char) -> bool {
    let x = c as u32;
    (65 <= x <= 90) || (97 <= x <= 122) || x == 95 || x >= 128
}

/// A character that may continue an identifier: those, or an ASCII digit.
pub open spec fn ident_char(c: char) -> bool {
    ident_start(c) || (48 <= c as u32 <= 57)
}

/// The name is an identifier: not empty, not `_` alone, not a keyword,
/// starting with a letter or `_` and made of letters, digits and `_`, where
/// any character beyond ASCII counts as a letter.
pub open spec fn is_ident(s: Seq<char>) -> bool {
    &&& s.len() > 0
    &&& ident_start(s[0])
    &&& forall|i: int| 0 <= i < s.len() ==> ident_char(#[trigger] s[i])
    &&& !(s.len() == 1 && s[0] == '_')
    &&& !keywords().contains(s)
}

/// No two groups or endpoints share a name, no two endpoints share a name in
/// capitals, no group lists an item twice, and no two entries of an endpoint
/// share a name in small letters.
pub open spec fn names_distinct(groups: Seq<GroupView>, endpoints: Seq<EndpointView>) -> bool {
    &&& distinct(top_names(groups, endpoints))
    &&& distinct_keys(static_keys(endpoints))
    &&& forall|g: int| 0 <= g < groups.len() ==> distinct(#[trigger] groups[g].items)
    &&& forall|j: int| 0 <= j < endpoints.len() ==> distinct_keys(field_keys(#[trigger] endpoints[j].entries))
}

/// Every name of groups, items, endpoints and entries is an identifier.
pub open spec fn names_are_identifiers(groups: Seq<GroupView>, endpoints: Seq<EndpointView>) -> bool {
    &&& forall|g: int|
        0 <= g < groups.len() ==> is_ident(#[trigger] groups[g].name) && forall|k: int|
            0 <= k < groups[g].items.len() ==> is_ident(#[trigger] groups[g].items[k])
    &&& forall|j: int|
        0 <= j < endpoints.len() ==> is_ident(#[trigger] endpoints[j].name) && forall|e: int|
            0 <= e < endpoints[j].entries.len() ==> is_ident(
                entry_name(#[trigger] endpoints[j].entries[e]),
            )
}

/// The names of a catalogue that can be declared.
pub open spec fn names_valid(groups: Seq<GroupView>, endpoints: Seq<EndpointView>) -> bool {
    names_distinct(groups, endpoints) && names_are_identifiers(groups, endpoints)
}

pub open spec fn keys_view(s: Seq<Vec<u32>>) -> Seq<Seq<u32>> {
    s.map_values(|k: Vec<u32>| k@)
}

/// A name's key: in capitals when `upper`, else in small letters.
fn key_of(s: &String, upper: bool) -> (v: Vec<u32>)
    ensures
        v@ == if upper {
            upper_key(s@)
        } else {
            lower_key(s@)
        },
{
    let ghost key = if upper {
        upper_key(s@)
    } else {
        lower_key(s@)
    };
    let n = s.as_str().unicode_len();
    let mut v: Vec<u32> = Vec::new();
    for i in 0..n
        invariant
            n == s@.len(),
            key == if upper {
                upper_key(s@)
            } else {
                lower_key(s@)
            },
            v@ == key.take(i as int),
    {
        let c = s.as_str().get_char(i);
        let x = c as u32;
        let y: u32 = if upper {
            if 97 <= x && x <= 122 {
                x - 32
            } else {
                x
            }
        } else {
            if 65 <= x && x <= 90 {
                x + 32
            } else {
                x
            }
        };
        v.push(y);
        assert(key.take(i + 1) =~= key.take(i as int).push(y));
    }
    assert(key.take(n as int) =~= key);
    v
}

/// Whether two keys are equal.
fn same_key(a: &Vec<u32>, b: &Vec<u32>) -> (r: bool)
    ensures
        r == (a@ == b@),
{
    if a.len() != b.len() {
        return false;
    }
    let n = a.len();
    for i in 0..n
        invariant
            n == a@.len(),
            n == b@.len(),
            forall|k: int| 0 <= k < i ==> a@[k] == b@[k],
    {
        if a[i] != b[i] {
            return false;
        }
    }
    assert(a@ =~= b@);
    true
}

/// Whether no key occurs twice in `v`.
fn distinct_key_list(v: &Vec<Vec<u32>>) -> (b: bool)
    ensures
        b == distinct_keys(keys_view(v@)),
{
    let ghost kv = keys_view(v@);
    let n = v.len();
    for i in 0..n
        invariant
            n == v@.len(),
            kv == keys_view(v@),
            forall|a: int, b: int| 0 <= a < i && a < b < n ==> #[trigger] kv[a] != #[trigger] kv[b],
    {
        for j in i + 1..n
            invariant
                n == v@.len(),
                i < n,
                kv == keys_view(v@),
                forall|a: int, b: int| 0 <= a < i && a < b < n ==> #[trigger] kv[a] != #[trigger] kv[b],
                forall|b: int| i < b < j ==> kv[i as int] != #[trigger] kv[b],
        {
            assert(kv[i as int] == v@[i as int]@ && kv[j as int] == v@[j as int]@);
            if same_key(&v[i], &v[j]) {
                return false;
            }
        }
    }
    true
}

/// The field names of the entries, in small letters.
fn field_key_list(entries: &Vec<EndpointEntry>) -> (v: Vec<Vec<u32>>)
    ensures
        keys_view(v@) == field_keys(entries_view(entries@)),
{
    let ghost fk = field_keys(entries_view(entries@));
    let mut v: Vec<Vec<u32>> = Vec::new();
    for e in 0..entries.len()
        invariant
            fk == field_keys(entries_view(entries@)),
            keys_view(v@) == fk.take(e as int),
    {
        let name = match &entries[e] {
            EndpointEntry::Shared(n) => n,
            EndpointEntry::Own(n) => n,
        };
        assert(entry_name(entries@[e as int]@) == name@);
        let k = key_of(name, false);
        let ghost before = v@;
        v.push(k);
        proof {
            assert(keys_view(v@) =~= keys_view(before).push(k@));
            assert(fk.take(e + 1) =~= fk.take(e as int).push(fk[e as int]));
        }
    }
    assert(fk.take(entries@.len() as int) =~= fk);
    v
}

/// The endpoints' names in capitals.
fn static_key_list(endpoints: &Vec<Endpoint>) -> (v: Vec<Vec<u32>>)
    ensures
        keys_view(v@) == static_keys(endpoints_view(endpoints@)),
{
    let ghost sk = static_keys(endpoints_view(endpoints@));
    let mut v: Vec<Vec<u32>> = Vec::new();
    for j in 0..endpoints.len()
        invariant
            sk == static_keys(endpoints_view(endpoints@)),
            keys_view(v@) == sk.take(j as int),
    {
        let k = key_of(&endpoints[j].name, true);
        let ghost before = v@;
        v.push(k);
        proof {
            assert(keys_view(v@) =~= keys_view(before).push(k@));
            assert(sk.take(j + 1) =~= sk.take(j as int).push(sk[j as int]));
        }
    }
    assert(sk.take(endpoints@.len() as int) =~= sk);
    v
}

/// Rust's keywords, as strings.
fn keyword_list() -> (v: Vec<String>)
    ensures
        strings_view(v@) == keywords(),
{
    let mut v: Vec<String> = Vec::new();
    v.push("as".to_owned());
    v.push("break".to_owned());
    v.push("const".to_owned());
    v.push("continue".to_owned());
    v.push("crate".to_owned());
    v.push("else".to_owned());
    v.push("enum".to_owned());
    let mut ext = "exter".to_owned();
    ext.append("n");
    v.push(ext);
    v.push("false".to_owned());
    v.push("fn".to_owned());
    v.push("for".to_owned());
    v.push("if".to_owned());
    v.push("impl".to_owned());
    v.push("in".to_owned());
    v.push("let".to_owned());
    v.push("loop".to_owned());
    v.push("match".to_owned());
    v.push("mod".to_owned());
    v.push("move".to_owned());
    v.push("mut".to_owned());
    v.push("pub".to_owned());
    v.push("ref".to_owned());
    v.push("return".to_owned());
    v.push("self".to_owned());
    v.push("Self".to_owned());
    v.push("static".to_owned());
    v.push("struct".to_owned());
    v.push("super".to_owned());
    v.push("trait".to_owned());
    v.push("true".to_owned());
    v.push("type".to_owned());
    v.push("unsafe".to_owned());
    v.push("use".to_owned());
    v.push("where".to_owned());
    v.push("while".to_owned());
    v.push("async".to_owned());
    v.push("await".to_owned());
    v.push("dyn".to_owned());
    v.push("abstract".to_owned());
    v.push("become".to_owned());
    v.push("box".to_owned());
    v.push("do".to_owned());
    v.push("final".to_owned());
    v.push("macro".to_owned());
    v.push("override".to_owned());
    v.push("priv".to_owned());
    v.push("typeof".to_owned());
    v.push("unsized".to_owned());
    v.push("virtual".to_owned());
    v.push("yield".to_owned());
    v.push("try".to_owned());
    assert(strings_view(v@) =~= keywords());
    v
}

/// Whether the name is a keyword.
fn is_keyword(s: &String) -> (r: bool)
    ensures
        r == keywords().contains(s@),
{
    let kws = keyword_list();
    let ghost kv = strings_view(kws@);
    for i in 0..kws.len()
        invariant
            kv == strings_view(kws@),
            kv == keywords(),
            forall|k: int| 0 <= k < i ==> kv[k] != s@,
    {
        assert(kv[i as int] == kws@[i as int]@);
        if *s == kws[i] {
            assert(kv[i as int] == s@);
            return true;
        }
    }
    proof {
        if keywords().contains(s@) {
            let k = choose|k: int| 0 <= k < kv.len() && kv[k] == s@;
            assert(kv[k] != s@);
        }
    }
    false
}

/// Whether the name is an identifier.
fn is_identifier(s: &String) -> (r: bool)
    ensures
        r == is_ident(s@),
{
    let n = s.as_str().unicode_len();
    if n == 0 {
        return false;
    }
    let first = s.as_str().get_char(0);
    let f = first as u32;
    if !((65 <= f && f <= 90) || (97 <= f && f <= 122) || f == 95 || f >= 128) {
        return false;
    }
    if n == 1 && f == 95 {
        return false;
    }
    if is_keyword(s) {
        return false;
    }
    for i in 0..n
        invariant
            n == s@.len(),
            forall|k: int| 0 <= k < i ==> ident_char(#[trigger] s@[k]),
    {
        let c = s.as_str().get_char(i);
        let x = c as u32;
        if !((65 <= x && x <= 90) || (97 <= x && x <= 122) || x == 95 || x >= 128 || (48 <= x && x
            <= 57)) {
            assert(!ident_char(s@[i as int]));
            return false;
        }
    }
    true
}

/// Whether every string of `v` is an identifier.
fn all_identifiers(v: &Vec<String>) -> (r: bool)
    ensures
        r == forall|k: int| 0 <= k < v@.len() ==> is_ident(#[trigger] strings_view(v@)[k]),
{
    for k in 0..v.len()
        invariant
            forall|i: int| 0 <= i < k ==> is_ident(#[trigger] strings_view(v@)[i]),
    {
        assert(strings_view(v@)[k as int] == v@[k as int]@);
        if !is_identifier(&v[k]) {
            return false;
        }
    }
    true
}

/// Whether every entry's name is an identifier.
fn entries_identifiers(entries: &Vec<EndpointEntry>) -> (r: bool)
    ensures
        r == forall|e: int|
            0 <= e < entries@.len() ==> is_ident(entry_name(#[trigger] entries_view(entries@)[e])),
{
    for e in 0..entries.len()
        invariant
            forall|i: int|
                0 <= i < e ==> is_ident(entry_name(#[trigger] entries_view(entries@)[i])),
    {
        let name = match &entries[e] {
            EndpointEntry::Shared(n) => n,
            EndpointEntry::Own(n) => n,
        };
        assert(entry_name(entries_view(entries@)[e as int]) == name@);
        if !is_identifier(name) {
            return false;
        }
    }
    true
}

/// Whether no string occurs twice in `v`.
fn distinct_strings(v: &Vec<String>) -> (b: bool)
    ensures
        b == distinct(strings_view(v@)),
{
    let ghost sv = strings_view(v@);
    let n = v.len();
    for i in 0..n
        invariant
            n == v@.len(),
            sv == strings_view(v@),
            forall|a: int, b: int| 0 <= a < i && a < b < n ==> #[trigger] sv[a] != #[trigger] sv[b],
    {
        for j in i + 1..n
            invariant
                n == v@.len(),
                i < n,
                sv == strings_view(v@),
                forall|a: int, b: int| 0 <= a < i && a < b < n ==> #[trigger] sv[a] != #[trigger] sv[b],
                forall|b: int| i < b < j ==> sv[i as int] != #[trigger] sv[b],
        {
            assert(sv[i as int] == v@[i as int]@ && sv[j as int] == v@[j as int]@);
            if v[i] == v[j] {
                return false;
            }
        }
    }
    true
}

/// The names of all groups, then of all endpoints.
fn top_name_list(groups: &Vec<ErrorGroup>, endpoints: &Vec<Endpoint>) -> (v: Vec<String>)
    ensures
        strings_view(v@) == top_names(groups_view(groups@), endpoints_view(endpoints@)),
{
    let ghost gn = groups_view(groups@).map_values(|g: GroupView| g.name);
    let ghost en = endpoints_view(endpoints@).map_values(|e: EndpointView| e.name);
    let mut v: Vec<String> = Vec::new();
    for g in 0..groups.len()
        invariant
            gn == groups_view(groups@).map_values(|g: GroupView| g.name),
            strings_view(v@) == gn.take(g as int),
    {
        let ghost before = v@;
        v.push(groups[g].name.clone());
        proof {
            assert(strings_view(v@) =~= strings_view(before).push(groups@[g as int].name@));
            assert(gn.take(g + 1) =~= gn.take(g as int).push(gn[g as int]));
        }
    }
    assert(gn.take(groups@.len() as int) =~= gn);
    let ghost mid = strings_view(v@);
    for j in 0..endpoints.len()
        invariant
            en == endpoints_view(endpoints@).map_values(|e: EndpointView| e.name),
            strings_view(v@) == mid + en.take(j as int),
    {
        let ghost before = v@;
        v.push(endpoints[j].name.clone());
        proof {
            assert(strings_view(v@) =~= strings_view(before).push(endpoints@[j as int].name@));
            assert(en.take(j + 1) =~= en.take(j as int).push(en[j as int]));
        }
    }
    assert(en.take(endpoints@.len() as int) =~= en);
    v
}

/// Builds `/module/owner/item`.
fn make_msg(module: &String, owner: &String, item: &String) -> (s: String)
    ensures
        s@ == err_msg(module@, owner@, item@),
{
    proof {
        reveal_strlit("/");
    }
    let mut s = String::new();
    s.append("/");
    s.append(module.as_str());
    s.append("/");
    s.append(owner.as_str());
    s.append("/");
    s.append(item.as_str());
    proof {
        assert(s@ =~= err_msg(module@, owner@, item@));
    }
    s
}


/// The documentation line of a public error.
fn public_doc(module: &String, group: &ErrorGroup, k: usize) -> (d: Document)
    requires
        k < group@.items.len(),
        group@.base + k <= u32::MAX,
    ensures
        d@ == group_docs(module@, group@)[k as int],
{
    proof {
        reveal_strlit("public");
    }
    let msg = make_msg(module, &group.name, &group.items[k]);
    let d = Document { err: ErrorCode { code: group.base + k as u32, msg }, endpoint: "public".to_owned() };
    proof {
        assert(d@.endpoint =~= public_label());
    }
    d
}

/// Appends the documentation lines of a public group to `out`.
fn push_group_docs(module: &String, group: &ErrorGroup, out: &mut Vec<Document>)
    requires
        group_fits(group@),
    ensures
        docs_view(final(out)@) == docs_view(old(out)@) + group_docs(module@, group@),
{
    let ghost start = docs_view(out@);
    let n = group.items.len();
    for k in 0..n
        invariant
            n == group@.items.len(),
            group_fits(group@),
            docs_view(out@) == start + group_docs(module@, group@).take(k as int),
    {
        let d = public_doc(module, group, k);
        let ghost before = out@;
        out.push(d);
        proof {
            assert(docs_view(out@) =~= docs_view(before).push(d@));
            assert(group_docs(module@, group@).take(k + 1) =~= group_docs(module@, group@).take(
                k as int,
            ).push(d@));
        }
    }
    proof {
        assert(group_docs(module@, group@).take(n as int) =~= group_docs(module@, group@));
    }
}

/// Counting own errors over a longer prefix never gives fewer.
pub proof fn lemma_own_count_prefix(entries: Seq<EntryView>, i: int, j: int)
    requires
        0 <= i <= j <= entries.len(),
    ensures
        own_count(entries.take(i)) <= own_count(entries.take(j)),
    decreases j - i,
{
    if i < j {
        lemma_own_count_prefix(entries, i, j - 1);
        assert(entries.take(j).drop_last() =~= entries.take(j - 1));
    }
}

/// Appends the documentation lines of the endpoint at position `j` to `out`.
fn push_endpoint_docs(module: &String, index: u32, j: usize, ep: &Endpoint, out: &mut Vec<Document>)
    requires
        own_count(ep@.entries) > 0 ==> own_code(index as int, j as int, own_count(ep@.entries) - 1)
            <= u32::MAX,
    ensures
        docs_view(final(out)@) == docs_view(old(out)@) + endpoint_docs(
            module@,
            index as int,
            j as int,
            ep@.name,
            ep@.entries,
        ),
{
    let ghost start = docs_view(out@);
    let ghost entries = ep@.entries;
    let n = ep.entries.len();
    let mut rank: u32 = 0;
    assert(entries.take(0) =~= Seq::<EntryView>::empty());
    for e in 0..n
        invariant
            n == entries.len(),
            entries == ep@.entries,
            own_count(entries) > 0 ==> own_code(index as int, j as int, own_count(entries) - 1)
                <= u32::MAX,
            rank == own_count(entries.take(e as int)),
            docs_view(out@) == start + endpoint_docs(
                module@,
                index as int,
                j as int,
                ep@.name,
                entries.take(e as int),
            ),
    {
        proof {
            assert(entries.take(e + 1).drop_last() =~= entries.take(e as int));
            assert(entries.take(e + 1).last() == entries[e as int]);
            lemma_own_count_prefix(entries, e + 1, n as int);
            assert(entries.take(n as int) =~= entries);
        }
        match &ep.entries[e] {
            EndpointEntry::Own(item) => {
                assert(entries[e as int] == EntryView::Own(item@));
                assert(own_count(entries.take(e + 1)) == rank + 1);
                let base: u32 = (index * 100 + j as u32) * 100;
                let code: u32 = base + 10 * rank;
                let msg = make_msg(module, &ep.name, item);
                let d = Document { err: ErrorCode { code, msg }, endpoint: ep.name.clone() };
                let ghost before = out@;
                out.push(d);
                rank = rank + 1;
                proof {
                    assert(docs_view(out@) =~= docs_view(before).push(d@));
                }
            },
            EndpointEntry::Shared(_) => {
                assert(entries[e as int] is Shared);
            },
        }
    }
    proof {
        assert(entries.take(n as int) =~= entries);
    }
}

/// Builds the document triples `(code, endpoint, msg)`.
pub open spec fn doc_triple(d: DocumentView) -> (int, Seq<char>, Seq<char>) {
    (d.code, d.endpoint, d.msg)
}

pub open spec fn triples_view(s: Seq<(u32, String, String)>) -> Seq<(int, Seq<char>, Seq<char>)> {
    s.map_values(|t: (u32, String, String)| (t.0 as int, t.1@, t.2@))
}

/// The header line of the CSV documentation.
pub open spec fn csv_header() -> Seq<char> {
    seq!['c', 'o', 'd', 'e', ',', ' ', 'e', 'n', 'd', 'p', 'o', 'i', 'n', 't', ',', ' ', 'm', 's', 'g', '\n']
}

/// One CSV line: `code,endpoint,msg` and a newline.
pub open spec fn csv_line(d: DocumentView) -> Seq<char> {
    decimal(d.code as nat) + seq![','] + d.endpoint + seq![','] + d.msg + seq!['\n']
}

/// The CSV lines of all documents, in order.
pub open spec fn csv_lines(docs: Seq<DocumentView>) -> Seq<char>
    decreases docs.len(),
{
    if docs.len() == 0 {
        seq![]
    } else {
        csv_lines(docs.drop_last()) + csv_line(docs.last())
    }
}


/// The position of the first public group named `name`.
pub open spec fn first_group(groups: Seq<GroupView>, name: Seq<char>) -> int {
    choose|g: int|
        0 <= g < groups.len() && groups[g].name == name && forall|i: int|
            0 <= i < g ==> #[trigger] groups[i].name != name
}

/// A field of an endpoint: the errors of a shared group, or one own error.
#[derive(Debug)]
pub enum EndpointField {
    Shared(Vec<ErrorCode>),
    Own(ErrorCode),
}

/// The mathematical value of an [`EndpointField`].
pub enum FieldView {
    Shared(Seq<ErrorCodeView>),
    Own(ErrorCodeView),
}

impl View for EndpointField {
    type V = FieldView;

    open spec fn view(&self) -> FieldView {
        match self {
            EndpointField::Shared(v) => FieldView::Shared(codes_view(v@)),
            EndpointField::Own(e) => FieldView::Own(e@),
        }
    }
}

/// The field of entry `e` of the endpoint at position `j`.
pub open spec fn field_view(book: CodeBookView, j: int, e: int) -> FieldView {
    let ep = book.endpoints[j];
    match ep.entries[e] {
        EntryView::Shared(n) => FieldView::Shared(
            group_errors(book.module, book.groups[first_group(book.groups, n)]),
        ),
        EntryView::Own(item) => FieldView::Own(
            ErrorCodeView {
                code: own_code(book.index, j, own_count(ep.entries.take(e)) as int),
                msg: err_msg(book.module, ep.name, item),
            },
        ),
    }
}

/// The position of the first group named `name`, if any.
fn find_group(groups: &Vec<ErrorGroup>, name: &String) -> (r: Option<usize>)
    ensures
        r is None <==> !names_group(groups_view(groups@), name@),
        r matches Some(g) ==> g < groups@.len() && g == first_group(groups_view(groups@), name@),
{
    let ghost gv = groups_view(groups@);
    let n = groups.len();
    for g in 0..n
        invariant
            n == groups@.len(),
            gv == groups_view(groups@),
            forall|i: int| 0 <= i < g ==> #[trigger] gv[i].name != name@,
    {
        assert(gv[g as int] == groups@[g as int]@);
        if groups[g].name == *name {
            proof {
                let w = first_group(gv, name@);
                assert(0 <= g < gv.len() && gv[g as int].name == name@ && forall|i: int|
                    0 <= i < g ==> #[trigger] gv[i].name != name@);
                assert(0 <= w < gv.len() && gv[w].name == name@ && forall|i: int|
                    0 <= i < w ==> #[trigger] gv[i].name != name@);
                if w < g {
                    assert(gv[w].name != name@);
                } else if w > g {
                    assert(gv[g as int].name != name@);
                }
            }
            return Some(g);
        }
    }
    proof {
        if names_group(gv, name@) {
            let g = choose|g: int| 0 <= g < gv.len() && #[trigger] gv[g].name == name@;
            assert(gv[g].name != name@);
        }
    }
    None
}

/// How many own errors the entries hold.
fn count_own(entries: &Vec<EndpointEntry>) -> (c: usize)
    ensures
        c == own_count(entries_view(entries@)),
{
    let ghost ev = entries_view(entries@);
    let n = entries.len();
    let mut c: usize = 0;
    assert(ev.take(0) =~= Seq::<EntryView>::empty());
    for e in 0..n
        invariant
            n == entries@.len(),
            ev == entries_view(entries@),
            c == own_count(ev.take(e as int)),
            c <= e,
    {
        proof {
            assert(ev.take(e + 1).drop_last() =~= ev.take(e as int));
            assert(ev.take(e + 1).last() == entries@[e as int]@);
        }
        match &entries[e] {
            EndpointEntry::Own(_) => {
                c = c + 1;
            },
            EndpointEntry::Shared(_) => {},
        }
    }
    proof {
        assert(ev.take(n as int) =~= ev);
    }
    c
}

/// Whether every shared group of the entries is declared.
fn shared_groups_known(groups: &Vec<ErrorGroup>, entries: &Vec<EndpointEntry>) -> (b: bool)
    ensures
        b == forall|e: int|
            0 <= e < entries@.len() ==> (#[trigger] entries_view(entries@)[e] matches EntryView::Shared(
                n,
            ) ==> names_group(groups_view(groups@), n)),
{
    let ghost ev = entries_view(entries@);
    let n = entries.len();
    for e in 0..n
        invariant
            n == entries@.len(),
            ev == entries_view(entries@),
            forall|i: int|
                0 <= i < e ==> (#[trigger] ev[i] matches EntryView::Shared(m) ==> names_group(
                    groups_view(groups@),
                    m,
                )),
    {
        assert(ev[e as int] == entries@[e as int]@);
        match &entries[e] {
            EndpointEntry::Shared(name) => {
                if find_group(groups, name).is_none() {
                    return false;
                }
            },
            EndpointEntry::Own(_) => {},
        }
    }
    true
}


/// An endpoint documents one line per own error.
pub proof fn lemma_endpoint_docs_len(
    module: Seq<char>,
    index: int,
    j: int,
    name: Seq<char>,
    entries: Seq<EntryView>,
)
    ensures
        endpoint_docs(module, index, j, name, entries).len() == own_count(entries),
    decreases entries.len(),
{
    if entries.len() > 0 {
        lemma_endpoint_docs_len(module, index, j, name, entries.drop_last());
    }
}

/// The line that documents own entry `e` stands at the own entry's rank.
proof fn lemma_endpoint_doc_at(
    module: Seq<char>,
    index: int,
    j: int,
    name: Seq<char>,
    entries: Seq<EntryView>,
    e: int,
)
    requires
        0 <= e < entries.len(),
        entries[e] is Own,
    ensures
        own_count(entries.take(e)) < own_count(entries),
        endpoint_docs(module, index, j, name, entries)[own_count(entries.take(e)) as int] == (
        DocumentView {
            code: own_code(index, j, own_count(entries.take(e)) as int),
            endpoint: name,
            msg: err_msg(module, name, entries[e]->Own_0),
        }),
    decreases entries.len(),
{
    let last = entries.len() - 1;
    lemma_endpoint_docs_len(module, index, j, name, entries.drop_last());
    if e == last {
        assert(entries.take(e) =~= entries.drop_last());
    } else {
        assert(entries.drop_last().take(e) =~= entries.take(e));
        assert(entries.drop_last()[e] == entries[e]);
        lemma_endpoint_doc_at(module, index, j, name, entries.drop_last(), e);
    }
}

/// The documentation of an endpoint agrees with its fields: the own error of
/// entry `e` is documented, under the endpoint's name, with the same number
/// and message, at the position given by how many own errors precede it.
pub proof fn lemma_docs_agree_with_fields(book: CodeBookView, j: int, e: int)
    requires
        0 <= j < book.endpoints.len(),
        0 <= e < book.endpoints[j].entries.len(),
        book.endpoints[j].entries[e] is Own,
    ensures
        ({
            let ep = book.endpoints[j];
            let docs = endpoint_docs(book.module, book.index, j, ep.name, ep.entries);
            let k = own_count(ep.entries.take(e)) as int;
            &&& 0 <= k < docs.len()
            &&& docs[k].endpoint == ep.name
            &&& field_view(book, j, e) == FieldView::Own(
                ErrorCodeView { code: docs[k].code, msg: docs[k].msg },
            )
        }),
{
    let ep = book.endpoints[j];
    lemma_endpoint_docs_len(book.module, book.index, j, ep.name, ep.entries);
    lemma_endpoint_doc_at(book.module, book.index, j, ep.name, ep.entries, e);
}

/// A shared group brings the same errors into every endpoint that uses it.
pub proof fn lemma_shared_group_same_everywhere(book: CodeBookView, j1: int, e1: int, j2: int, e2: int)
    requires
        0 <= j1 < book.endpoints.len(),
        0 <= j2 < book.endpoints.len(),
        0 <= e1 < book.endpoints[j1].entries.len(),
        0 <= e2 < book.endpoints[j2].entries.len(),
        book.endpoints[j1].entries[e1] is Shared,
        book.endpoints[j1].entries[e1] == book.endpoints[j2].entries[e2],
    ensures
        field_view(book, j1, e1) == field_view(book, j2, e2),
        field_view(book, j1, e1) == FieldView::Shared(
            group_errors(
                book.module,
                book.groups[first_group(book.groups, book.endpoints[j1].entries[e1]->Shared_0)],
            ),
        ),
{
}

/// The errors of a public group are numbered consecutively from its base.
pub proof fn lemma_group_numbers_consecutive(module: Seq<char>, g: GroupView, k: int)
    requires
        0 <= k < g.items.len(),
    ensures
        group_errors(module, g)[k].code == g.base + k,
        k + 1 < g.items.len() ==> group_errors(module, g)[k + 1].code == group_errors(module, g)[k].code
            + 1,
{
}

/// The groups before position `g` declare no more errors than all groups do
/// without group `g`.
proof fn lemma_public_count_prefix(groups: Seq<GroupView>, g: int)
    requires
        0 <= g < groups.len(),
    ensures
        public_count(groups.take(g)) + groups[g].items.len() <= public_count(groups),
    decreases groups.len(),
{
    if g == groups.len() - 1 {
        assert(groups.take(g) =~= groups.drop_last());
    } else {
        assert(groups.drop_last().take(g) =~= groups.take(g));
        lemma_public_count_prefix(groups.drop_last(), g);
    }
}

/// The public documentation has one line per error of every group, group
/// after group in declaration order: item `k` of group `g` stands after the
/// errors of the groups before it, numbered `base + k`, placed `public`, with
/// the message `/module/group/item`.
pub proof fn lemma_public_docs_layout(module: Seq<char>, groups: Seq<GroupView>)
    ensures
        public_docs(module, groups).len() == public_count(groups),
        forall|g: int, k: int|
            0 <= g < groups.len() && 0 <= k < groups[g].items.len() ==> public_count(groups.take(g))
                + k < public_count(groups) && public_docs(module, groups)[public_count(groups.take(g))
                + k] == (DocumentView {
                code: groups[g].base + k,
                endpoint: public_label(),
                msg: err_msg(module, groups[g].name, #[trigger] groups[g].items[k]),
            }),
    decreases groups.len(),
{
    if groups.len() > 0 {
        let p = groups.drop_last();
        let last = groups.len() - 1;
        lemma_public_docs_layout(module, p);
        assert forall|g: int, k: int|
            0 <= g < groups.len() && 0 <= k < groups[g].items.len() implies public_count(groups.take(g))
                + k < public_count(groups) && public_docs(module, groups)[public_count(groups.take(g))
                + k] == (DocumentView {
                code: groups[g].base + k,
                endpoint: public_label(),
                msg: err_msg(module, groups[g].name, #[trigger] groups[g].items[k]),
            }) by {
            if g == last {
                assert(groups.take(g) =~= p);
            } else {
                assert(p.take(g) =~= groups.take(g));
                assert(p[g] == groups[g]);
                assert(p[g].items[k] == groups[g].items[k]);
                lemma_public_count_prefix(p, g);
            }
        }
    }
}

/// Names can be declared exactly when every group, item, endpoint and entry
/// name is an identifier, no two groups share a name, no group shares a name
/// with an endpoint, no two endpoints have names that agree in capitals, no
/// group lists an item twice, and no two entries of one endpoint have names
/// that agree in small letters.
pub proof fn lemma_declarable_names(groups: Seq<GroupView>, endpoints: Seq<EndpointView>)
    ensures
        names_valid(groups, endpoints) <==> {
            &&& forall|g: int| 0 <= g < groups.len() ==> is_ident(#[trigger] groups[g].name)
            &&& forall|g: int, k: int|
                0 <= g < groups.len() && 0 <= k < groups[g].items.len() ==> is_ident(
                    #[trigger] groups[g].items[k],
                )
            &&& forall|j: int| 0 <= j < endpoints.len() ==> is_ident(#[trigger] endpoints[j].name)
            &&& forall|j: int, e: int|
                0 <= j < endpoints.len() && 0 <= e < endpoints[j].entries.len() ==> is_ident(
                    entry_name(#[trigger] endpoints[j].entries[e]),
                )
            &&& forall|g1: int, g2: int|
                0 <= g1 < g2 < groups.len() ==> #[trigger] groups[g1].name != #[trigger] groups[g2].name
            &&& forall|g: int, j: int|
                0 <= g < groups.len() && 0 <= j < endpoints.len() ==> #[trigger] groups[g].name
                    != #[trigger] endpoints[j].name
            &&& forall|j1: int, j2: int|
                0 <= j1 < j2 < endpoints.len() ==> upper_key(#[trigger] endpoints[j1].name) != upper_key(
                    #[trigger] endpoints[j2].name,
                )
            &&& forall|g: int, k1: int, k2: int|
                0 <= g < groups.len() && 0 <= k1 < k2 < groups[g].items.len() ==> #[trigger] groups[g].items[k1]
                    != #[trigger] groups[g].items[k2]
            &&& forall|j: int, e1: int, e2: int|
                0 <= j < endpoints.len() && 0 <= e1 < e2 < endpoints[j].entries.len() ==> lower_key(
                    entry_name(#[trigger] endpoints[j].entries[e1]),
                ) != lower_key(entry_name(#[trigger] endpoints[j].entries[e2]))
        },
{
    let tops = top_names(groups, endpoints);
    let ng = groups.len() as int;
    assert forall|i: int| 0 <= i < ng implies tops[i] == groups[i].name by {}
    assert forall|i: int| 0 <= i < endpoints.len() implies tops[ng + i] == endpoints[i].name by {}
    assert forall|i: int| 0 <= i < endpoints.len() implies static_keys(endpoints)[i] == upper_key(
        endpoints[i].name,
    ) by {}
    assert forall|j: int, i: int|
        0 <= j < endpoints.len() && 0 <= i < endpoints[j].entries.len() implies field_keys(
        endpoints[j].entries,
    )[i] == lower_key(entry_name(endpoints[j].entries[i])) by {}
    assert(tops.len() == ng + endpoints.len());
    if names_valid(groups, endpoints) {
        assert forall|g1: int, g2: int| 0 <= g1 < g2 < groups.len() implies #[trigger] groups[g1].name
            != #[trigger] groups[g2].name by {
            assert(tops[g1] != tops[g2]);
        }
        assert forall|g: int, j: int| 0 <= g < groups.len() && 0 <= j < endpoints.len() implies
            #[trigger] groups[g].name != #[trigger] endpoints[j].name by {
            assert(tops[g] != tops[ng + j]);
        }
        assert forall|j1: int, j2: int| 0 <= j1 < j2 < endpoints.len() implies upper_key(
            #[trigger] endpoints[j1].name,
        ) != upper_key(#[trigger] endpoints[j2].name) by {
            assert(static_keys(endpoints)[j1] != static_keys(endpoints)[j2]);
        }
        assert forall|g: int, k1: int, k2: int|
            0 <= g < groups.len() && 0 <= k1 < k2 < groups[g].items.len() implies #[trigger] groups[g].items[k1]
            != #[trigger] groups[g].items[k2] by {
            assert(distinct(groups[g].items));
        }
        assert forall|j: int, e1: int, e2: int|
            0 <= j < endpoints.len() && 0 <= e1 < e2 < endpoints[j].entries.len() implies lower_key(
            entry_name(#[trigger] endpoints[j].entries[e1]),
        ) != lower_key(entry_name(#[trigger] endpoints[j].entries[e2])) by {
            let fk = field_keys(endpoints[j].entries);
            assert(distinct_keys(fk));
            assert(fk[e1] != fk[e2]);
        }
        assert forall|g: int, k: int| 0 <= g < groups.len() && 0 <= k < groups[g].items.len() implies is_ident(
            #[trigger] groups[g].items[k],
        ) by {
            assert(is_ident(groups[g].name));
        }
        assert forall|j: int, e: int| 0 <= j < endpoints.len() && 0 <= e < endpoints[j].entries.len() implies is_ident(
            entry_name(#[trigger] endpoints[j].entries[e]),
        ) by {
            assert(is_ident(endpoints[j].name));
        }
    }
    if ({
        &&& forall|g: int| 0 <= g < groups.len() ==> is_ident(#[trigger] groups[g].name)
        &&& forall|g: int, k: int|
            0 <= g < groups.len() && 0 <= k < groups[g].items.len() ==> is_ident(#[trigger] groups[g].items[k])
        &&& forall|j: int| 0 <= j < endpoints.len() ==> is_ident(#[trigger] endpoints[j].name)
        &&& forall|j: int, e: int|
            0 <= j < endpoints.len() && 0 <= e < endpoints[j].entries.len() ==> is_ident(
                entry_name(#[trigger] endpoints[j].entries[e]),
            )
        &&& forall|g1: int, g2: int|
            0 <= g1 < g2 < groups.len() ==> #[trigger] groups[g1].name != #[trigger] groups[g2].name
        &&& forall|g: int, j: int|
            0 <= g < groups.len() && 0 <= j < endpoints.len() ==> #[trigger] groups[g].name
                != #[trigger] endpoints[j].name
        &&& forall|j1: int, j2: int|
            0 <= j1 < j2 < endpoints.len() ==> upper_key(#[trigger] endpoints[j1].name) != upper_key(
                #[trigger] endpoints[j2].name,
            )
        &&& forall|g: int, k1: int, k2: int|
            0 <= g < groups.len() && 0 <= k1 < k2 < groups[g].items.len() ==> #[trigger] groups[g].items[k1]
                != #[trigger] groups[g].items[k2]
        &&& forall|j: int, e1: int, e2: int|
            0 <= j < endpoints.len() && 0 <= e1 < e2 < endpoints[j].entries.len() ==> lower_key(
                entry_name(#[trigger] endpoints[j].entries[e1]),
            ) != lower_key(entry_name(#[trigger] endpoints[j].entries[e2]))
    }) {
        assert forall|a: int, b: int| 0 <= a < b < tops.len() implies #[trigger] tops[a] != #[trigger] tops[b] by {
            if b < ng {
                assert(groups[a].name != groups[b].name);
            } else if a < ng {
                assert(groups[a].name != endpoints[b - ng].name);
            } else {
                assert(upper_key(endpoints[a - ng].name) != upper_key(endpoints[b - ng].name));
            }
        }
        assert forall|a: int, b: int| 0 <= a < b < endpoints.len() implies #[trigger] static_keys(endpoints)[a]
            != #[trigger] static_keys(endpoints)[b] by {
            assert(upper_key(endpoints[a].name) != upper_key(endpoints[b].name));
        }
        assert forall|g: int| 0 <= g < groups.len() implies distinct(#[trigger] groups[g].items) by {
            assert forall|k1: int, k2: int| 0 <= k1 < k2 < groups[g].items.len() implies #[trigger] groups[g].items[k1]
                != #[trigger] groups[g].items[k2] by {}
        }
        assert forall|j: int| 0 <= j < endpoints.len() implies distinct_keys(
            field_keys(#[trigger] endpoints[j].entries),
        ) by {
            let fk = field_keys(endpoints[j].entries);
            assert forall|e1: int, e2: int| 0 <= e1 < e2 < fk.len() implies #[trigger] fk[e1] != #[trigger] fk[e2] by {
                assert(lower_key(entry_name(endpoints[j].entries[e1])) != lower_key(
                    entry_name(endpoints[j].entries[e2]),
                ));
            }
        }
        assert(names_distinct(groups, endpoints));
        assert(names_are_identifiers(groups, endpoints));
    }
}

/// An error catalogue.
pub struct CodeBook {
    module: String,
    index: u32,
    groups: Vec<ErrorGroup>,
    endpoints: Vec<Endpoint>,
}

impl View for CodeBook {
    type V = CodeBookView;

    closed spec fn view(&self) -> CodeBookView {
        CodeBookView {
            module: self.module@,
            index: self.index as int,
            groups: groups_view(self.groups@),
            endpoints: endpoints_view(self.endpoints@),
        }
    }
}

impl CodeBook {
    #[verifier::type_invariant]
    closed spec fn inv(self) -> bool {
        &&& book_valid(self.index as int, groups_view(self.groups@), endpoints_view(self.endpoints@))
        &&& names_valid(groups_view(self.groups@), endpoints_view(self.endpoints@))
    }

    /// Builds a catalogue. It is refused (`None`) exactly when an endpoint
    /// shares a group that is not declared, when a number does not fit in a
    /// `u32`, when a name is not an identifier (in the sense of `is_ident`:
    /// ASCII letters, digits and `_`, any character beyond ASCII, no
    /// keyword), or when names clash: two groups or endpoints with one name,
    /// two endpoints whose names agree once their ASCII letters are made
    /// capital, an item twice in a group, or two entries of an endpoint whose
    /// names agree once their ASCII letters are made small.
    pub fn new(module: String, index: u32, groups: Vec<ErrorGroup>, endpoints: Vec<Endpoint>) -> (res:
        Option<CodeBook>)
        ensures
            res is Some <==> book_valid(index as int, groups_view(groups@), endpoints_view(endpoints@))
                && names_valid(groups_view(groups@), endpoints_view(endpoints@)),
            res matches Some(b) ==> b@ == (CodeBookView {
                module: module@,
                index: index as int,
                groups: groups_view(groups@),
                endpoints: endpoints_view(endpoints@),
            }),
            res is Some ==> forall|g: int| 0 <= g < groups@.len() ==> is_ident(#[trigger] groups@[g].name@),
            res is Some ==> forall|g: int, k: int|
                0 <= g < groups@.len() && 0 <= k < groups@[g].items@.len() ==> is_ident(
                    (#[trigger] groups@[g].items@[k])@,
                ),
            res is Some ==> forall|j: int|
                0 <= j < endpoints@.len() ==> is_ident(#[trigger] endpoints@[j].name@),
            res is Some ==> forall|j: int, e: int|
                0 <= j < endpoints@.len() && 0 <= e < endpoints@[j].entries@.len() ==> is_ident(
                    entry_name((#[trigger] endpoints@[j].entries@[e])@),
                ),
    {
        let ghost gv = groups_view(groups@);
        let ghost ev = endpoints_view(endpoints@);
        let ng = groups.len();
        for g in 0..ng
            invariant
                ng == groups@.len(),
                gv == groups_view(groups@),
                forall|i: int| 0 <= i < g ==> group_fits(#[trigger] gv[i]),
        {
            assert(gv[g as int] == groups@[g as int]@);
            let len = groups[g].items.len();
            if len > 0 && groups[g].base as u128 + len as u128 - 1 > u32::MAX as u128 {
                assert(!group_fits(gv[g as int]));
                return None;
            }
        }
        let ne = endpoints.len();
        for j in 0..ne
            invariant
                ne == endpoints@.len(),
                ng == groups@.len(),
                gv == groups_view(groups@),
                ev == endpoints_view(endpoints@),
                forall|i: int| 0 <= i < ng ==> group_fits(#[trigger] gv[i]),
                forall|i: int| 0 <= i < j ==> endpoint_valid(gv, index as int, i, #[trigger] ev[i]),
        {
            assert(ev[j as int] == endpoints@[j as int]@);
            if !shared_groups_known(&groups, &endpoints[j].entries) {
                assert(!endpoint_valid(gv, index as int, j as int, ev[j as int]));
                return None;
            }
            let c = count_own(&endpoints[j].entries);
            if c > 0 && (index as u128 * 100 + j as u128) * 100 + 10 * (c as u128 - 1)
                > u32::MAX as u128 {
                assert(!endpoint_valid(gv, index as int, j as int, ev[j as int]));
                return None;
            }
            assert(endpoint_valid(gv, index as int, j as int, ev[j as int]));
        }
        if !distinct_strings(&top_name_list(&groups, &endpoints)) {
            return None;
        }
        if !distinct_key_list(&static_key_list(&endpoints)) {
            return None;
        }
        assert(book_valid(index as int, gv, ev));
        for g in 0..ng
            invariant
                ng == groups@.len(),
                gv == groups_view(groups@),
                ev == endpoints_view(endpoints@),
                book_valid(index as int, gv, ev),
                distinct(top_names(gv, ev)),
                distinct_keys(static_keys(ev)),
                forall|i: int|
                    0 <= i < g ==> distinct(#[trigger] gv[i].items) && is_ident(gv[i].name) && forall|
                        k: int,
                    | 0 <= k < gv[i].items.len() ==> is_ident(#[trigger] gv[i].items[k]),
        {
            assert(gv[g as int] == groups@[g as int]@);
            if !distinct_strings(&groups[g].items) {
                proof {
                    if names_distinct(gv, ev) {
                        assert(distinct(gv[g as int].items));
                    }
                }
                return None;
            }
            if !is_identifier(&groups[g].name) {
                proof {
                    if names_are_identifiers(gv, ev) {
                        assert(is_ident(gv[g as int].name));
                    }
                }
                return None;
            }
            if !all_identifiers(&groups[g].items) {
                proof {
                    let items = strings_view(groups@[g as int].items@);
                    let k = choose|k: int| 0 <= k < items.len() && !is_ident(#[trigger] items[k]);
                    assert(gv[g as int].items[k] == items[k]);
                    assert(!is_ident(gv[g as int].items[k]));
                    if names_are_identifiers(gv, ev) {
                        assert(is_ident(gv[g as int].name));
                        assert(is_ident(gv[g as int].items[k]));
                    }
                }
                return None;
            }
        }
        for j in 0..ne
            invariant
                ne == endpoints@.len(),
                ng == groups@.len(),
                gv == groups_view(groups@),
                ev == endpoints_view(endpoints@),
                book_valid(index as int, gv, ev),
                distinct(top_names(gv, ev)),
                distinct_keys(static_keys(ev)),
                forall|i: int|
                    0 <= i < ng ==> distinct(#[trigger] gv[i].items) && is_ident(gv[i].name) && forall|
                        k: int,
                    | 0 <= k < gv[i].items.len() ==> is_ident(#[trigger] gv[i].items[k]),
                forall|i: int|
                    0 <= i < j ==> distinct_keys(field_keys(#[trigger] ev[i].entries)) && is_ident(
                        ev[i].name,
                    ) && forall|e: int|
                        0 <= e < ev[i].entries.len() ==> is_ident(
                            entry_name(#[trigger] ev[i].entries[e]),
                        ),
        {
            assert(ev[j as int] == endpoints@[j as int]@);
            if !distinct_key_list(&field_key_list(&endpoints[j].entries)) {
                proof {
                    if names_distinct(gv, ev) {
                        assert(distinct_keys(field_keys(ev[j as int].entries)));
                    }
                }
                return None;
            }
            if !is_identifier(&endpoints[j].name) {
                proof {
                    if names_are_identifiers(gv, ev) {
                        assert(is_ident(ev[j as int].name));
                    }
                }
                return None;
            }
            if !entries_identifiers(&endpoints[j].entries) {
                proof {
                    let es = entries_view(endpoints@[j as int].entries@);
                    let e = choose|e: int| 0 <= e < es.len() && !is_ident(entry_name(#[trigger] es[e]));
                    assert(ev[j as int].entries[e] == es[e]);
                    assert(!is_ident(entry_name(ev[j as int].entries[e])));
                    if names_are_identifiers(gv, ev) {
                        assert(is_ident(ev[j as int].name));
                        assert(is_ident(entry_name(ev[j as int].entries[e])));
                    }
                }
                return None;
            }
            assert(ev[j as int].entries == entries_view(endpoints@[j as int].entries@));
            assert(is_ident(ev[j as int].name));
            assert(distinct_keys(field_keys(ev[j as int].entries)));
            assert(forall|e: int|
                0 <= e < ev[j as int].entries.len() ==> is_ident(
                    entry_name(#[trigger] ev[j as int].entries[e]),
                ));
            assert forall|i: int| 0 <= i < j + 1 implies distinct_keys(
                field_keys(#[trigger] ev[i].entries),
            ) && is_ident(ev[i].name) && forall|e: int|
                0 <= e < ev[i].entries.len() ==> is_ident(entry_name(#[trigger] ev[i].entries[e])) by {
                if i == j {
                }
            }
        }
        proof {
            lemma_declarable_names(gv, ev);
            assert forall|g: int, k: int|
                0 <= g < groups@.len() && 0 <= k < groups@[g].items@.len() implies is_ident(
                (#[trigger] groups@[g].items@[k])@,
            ) by {
                assert(gv[g].items[k] == groups@[g].items@[k]@);
            }
            assert forall|j: int, e: int|
                0 <= j < endpoints@.len() && 0 <= e < endpoints@[j].entries@.len() implies is_ident(
                entry_name((#[trigger] endpoints@[j].entries@[e])@),
            ) by {
                assert(ev[j].entries[e] == endpoints@[j].entries@[e]@);
            }
            assert forall|g: int| 0 <= g < groups@.len() implies is_ident(#[trigger] groups@[g].name@) by {
                assert(gv[g].name == groups@[g].name@);
            }
            assert forall|j: int| 0 <= j < endpoints@.len() implies is_ident(#[trigger] endpoints@[j].name@) by {
                assert(ev[j].name == endpoints@[j].name@);
            }
        }
        Some(CodeBook { module, index, groups, endpoints })
    }

    /// The fields of the endpoint at position `j`, one per entry: the errors
    /// of a shared group, or the endpoint's own error.
    pub fn endpoint_fields(&self, j: usize) -> (res: Vec<EndpointField>)
        requires
            j < self@.endpoints.len(),
        ensures
            res@.len() == self@.endpoints[j as int].entries.len(),
            forall|e: int| 0 <= e < res@.len() ==> #[trigger] res@[e]@ == field_view(self@, j as int, e),
    {
        proof {
            use_type_invariant(self);
        }
        let ghost book = self@;
        let ep = &self.endpoints[j];
        assert(book.endpoints[j as int] == ep@);
        let ghost entries = ep@.entries;
        assert(endpoint_valid(book.groups, book.index, j as int, ep@));
        let n = ep.entries.len();
        let mut res: Vec<EndpointField> = Vec::new();
        let mut rank: u32 = 0;
        assert(entries.take(0) =~= Seq::<EntryView>::empty());
        for e in 0..n
            invariant
                n == entries.len(),
                book == self@,
                j < book.endpoints.len(),
                entries == ep@.entries,
                book.endpoints[j as int] == ep@,
                endpoint_valid(book.groups, book.index, j as int, ep@),
                rank == own_count(entries.take(e as int)),
                res@.len() == e,
                forall|i: int| 0 <= i < e ==> #[trigger] res@[i]@ == field_view(book, j as int, i),
        {
            proof {
                assert(entries.take(e + 1).drop_last() =~= entries.take(e as int));
                assert(entries.take(e + 1).last() == entries[e as int]);
                lemma_own_count_prefix(entries, e + 1, n as int);
                assert(entries.take(n as int) =~= entries);
            }
            match &ep.entries[e] {
                EndpointEntry::Own(item) => {
                    assert(entries[e as int] == EntryView::Own(item@));
                    let base: u32 = (self.index * 100 + j as u32) * 100;
                    let code: u32 = base + 10 * rank;
                    let msg = make_msg(&self.module, &ep.name, item);
                    let f = EndpointField::Own(ErrorCode { code, msg });
                    assert(f@ == field_view(book, j as int, e as int));
                    res.push(f);
                    rank = rank + 1;
                },
                EndpointEntry::Shared(name) => {
                    assert(entries[e as int] == EntryView::Shared(name@));
                    assert(names_group(book.groups, name@));
                    let g = find_group(&self.groups, name).unwrap();
                    let errs = self.group_errors(g);
                    let f = EndpointField::Shared(errs);
                    assert(f@ == field_view(book, j as int, e as int));
                    res.push(f);
                },
            }
        }
        res
    }

    /// The documentation lines of all public groups.
    pub fn doc_pub(&self) -> (res: Vec<Document>)
        ensures
            docs_view(res@) == public_docs(self@.module, self@.groups),
            res@.len() == public_count(self@.groups),
            forall|g: int, k: int|
                0 <= g < self@.groups.len() && 0 <= k < self@.groups[g].items.len() ==> docs_view(
                    res@,
                )[public_count(self@.groups.take(g)) + k] == (DocumentView {
                    code: self@.groups[g].base + k,
                    endpoint: public_label(),
                    msg: err_msg(self@.module, self@.groups[g].name, #[trigger] self@.groups[g].items[k]),
                }),
    {
        proof {
            use_type_invariant(self);
        }
        let ghost groups = groups_view(self.groups@);
        let mut res: Vec<Document> = Vec::new();
        let n = self.groups.len();
        assert(groups.take(0) =~= Seq::<GroupView>::empty());
        for g in 0..n
            invariant
                n == self.groups@.len(),
                groups == groups_view(self.groups@),
                book_valid(self.index as int, groups, endpoints_view(self.endpoints@)),
                docs_view(res@) == public_docs(self.module@, groups.take(g as int)),
        {
            assert(groups[g as int] == self.groups@[g as int]@);
            assert(group_fits(groups[g as int]));
            push_group_docs(&self.module, &self.groups[g], &mut res);
            proof {
                assert(groups.take(g + 1).drop_last() =~= groups.take(g as int));
                assert(groups.take(g + 1).last() == groups[g as int]);
            }
        }
        proof {
            assert(groups.take(n as int) =~= groups);
            lemma_public_docs_layout(self@.module, self@.groups);
        }
        res
    }

    /// The documentation lines of the endpoint at position `j`.
    pub fn doc_endpoint(&self, j: usize) -> (res: Vec<Document>)
        requires
            j < self@.endpoints.len(),
        ensures
            docs_view(res@) == endpoint_docs(
                self@.module,
                self@.index,
                j as int,
                self@.endpoints[j as int].name,
                self@.endpoints[j as int].entries,
            ),
    {
        proof {
            use_type_invariant(self);
        }
        let mut res: Vec<Document> = Vec::new();
        assert(endpoints_view(self.endpoints@)[j as int] == self.endpoints@[j as int]@);
        push_endpoint_docs(&self.module, self.index, j, &self.endpoints[j], &mut res);
        proof {
            assert(docs_view(res@) =~= docs_view(Seq::<Document>::empty()) + docs_view(res@));
        }
        res
    }

    /// The whole documentation: public groups first, then every endpoint's
    /// own errors.
    pub fn err_list(&self) -> (res: Vec<Document>)
        ensures
            docs_view(res@) == spec_err_list(self@),
            res@.len() >= public_count(self@.groups),
            forall|g: int, k: int|
                0 <= g < self@.groups.len() && 0 <= k < self@.groups[g].items.len() ==> docs_view(
                    res@,
                )[public_count(self@.groups.take(g)) + k] == (DocumentView {
                    code: self@.groups[g].base + k,
                    endpoint: public_label(),
                    msg: err_msg(self@.module, self@.groups[g].name, #[trigger] self@.groups[g].items[k]),
                }),
    {
        proof {
            use_type_invariant(self);
        }
        let mut res = self.doc_pub();
        let ghost eps = endpoints_view(self.endpoints@);
        let ghost pub_docs = docs_view(res@);
        let n = self.endpoints.len();
        assert(eps.take(0) =~= Seq::<EndpointView>::empty());
        for j in 0..n
            invariant
                n == self.endpoints@.len(),
                eps == endpoints_view(self.endpoints@),
                pub_docs == public_docs(self.module@, groups_view(self.groups@)),
                book_valid(self.index as int, groups_view(self.groups@), eps),
                docs_view(res@) == pub_docs + all_endpoint_docs(
                    self.module@,
                    self.index as int,
                    eps.take(j as int),
                ),
        {
            assert(eps[j as int] == self.endpoints@[j as int]@);
            assert(endpoint_valid(groups_view(self.groups@), self.index as int, j as int, eps[j as int]));
            let ghost before = docs_view(res@);
            push_endpoint_docs(&self.module, self.index, j, &self.endpoints[j], &mut res);
            proof {
                assert(eps.take(j + 1).drop_last() =~= eps.take(j as int));
                assert(eps.take(j + 1)[j as int] == eps[j as int]);
                assert(docs_view(res@) =~= pub_docs + all_endpoint_docs(
                    self.module@,
                    self.index as int,
                    eps.take(j + 1),
                ));
            }
        }
        proof {
            assert(eps.take(n as int) =~= eps);
            lemma_public_docs_layout(self@.module, self@.groups);
        }
        res
    }

    /// The documentation as `(code, endpoint, msg)` triples.
    pub fn document(&self) -> (res: Vec<(u32, String, String)>)
        ensures
            triples_view(res@) == spec_err_list(self@).map_values(|d: DocumentView| doc_triple(d)),
    {
        let errs = self.err_list();
        let ghost docs = spec_err_list(self@);
        let mut res: Vec<(u32, String, String)> = Vec::new();
        let n = errs.len();
        for i in 0..n
            invariant
                n == errs@.len(),
                docs_view(errs@) == docs,
                triples_view(res@) == docs.map_values(|d: DocumentView| doc_triple(d)).take(
                    i as int,
                ),
        {
            let d = &errs[i];
            assert(docs[i as int] == d@);
            let t = (d.err.code, d.endpoint.clone(), d.err.msg.clone());
            let ghost before = res@;
            res.push(t);
            proof {
                assert(triples_view(res@) =~= triples_view(before).push((t.0 as int, t.1@, t.2@)));
                assert(docs.map_values(|d: DocumentView| doc_triple(d)).take(i + 1) =~= docs.map_values(
                    |d: DocumentView| doc_triple(d),
                ).take(i as int).push(doc_triple(docs[i as int])));
            }
        }
        proof {
            assert(docs.map_values(|d: DocumentView| doc_triple(d)).take(n as int) =~= docs.map_values(
                |d: DocumentView| doc_triple(d),
            ));
        }
        res
    }

    /// The documentation as CSV: a header line, then one line per error.
    pub fn doc_csv(&self) -> (res: String)
        ensures
            res@ == csv_header() + csv_lines(spec_err_list(self@)),
    {
        proof {
            reveal_strlit("code, endpoint, msg\n");
        }
        let errs = self.err_list();
        let ghost docs = spec_err_list(self@);
        let mut table = "code, endpoint, msg\n".to_owned();
        assert(table@ =~= csv_header());
        let n = errs.len();
        assert(docs.take(0) =~= Seq::<DocumentView>::empty());
        for i in 0..n
            invariant
                n == errs@.len(),
                docs_view(errs@) == docs,
                table@ == csv_header() + csv_lines(docs.take(i as int)),
        {
            let d = &errs[i];
            assert(docs[i as int] == d@);
            let ghost before = table@;
            proof {
                reveal_strlit(",");
                reveal_strlit("\n");
            }
            push_decimal(&mut table, d.err.code);
            table.append(",");
            table.append(d.endpoint.as_str());
            table.append(",");
            table.append(d.err.msg.as_str());
            table.append("\n");
            proof {
                assert(docs.take(i + 1).drop_last() =~= docs.take(i as int));
                assert(docs.take(i + 1).last() == d@);
                assert(table@ =~= before + csv_line(d@));
            }
        }
        proof {
            assert(docs.take(n as int) =~= docs);
        }
        table
    }

    /// The errors of the public group at position `g`.
    pub fn group_errors(&self, g: usize) -> (res: Vec<ErrorCode>)
        requires
            g < self@.groups.len(),
        ensures
            codes_view(res@) == group_errors(self@.module, self@.groups[g as int]),
    {
        proof {
            use_type_invariant(self);
        }
        let group = &self.groups[g];
        assert(self@.groups[g as int] == group@);
        assert(group_fits(group@));
        let mut res: Vec<ErrorCode> = Vec::new();
        let n = group.items.len();
        for k in 0..n
            invariant
                n == group.items@.len(),
                group_fits(group@),
                codes_view(res@) == group_errors(self.module@, group@).take(k as int),
        {
            let msg = make_msg(&self.module, &group.name, &group.items[k]);
            let e = ErrorCode { code: group.base + k as u32, msg };
            let ghost before = res@;
            res.push(e);
            proof {
                assert(codes_view(res@) =~= codes_view(before).push(e@));
                assert(group_errors(self.module@, group@).take(k + 1) =~= group_errors(
                    self.module@,
                    group@,
                ).take(k as int).push(e@));
            }
        }
        proof {
            assert(group_errors(self.module@, group@).take(n as int) =~= group_errors(
                self.module@,
                group@,
            ));
        }
        res
    }
}

} // verus!
