use vstd::prelude::*;

verus! {

// ---------------------------------------------------------------------------
// Path arithmetic.  Paths are plain strings; a component boundary is '/'.
// ---------------------------------------------------------------------------
/// The index where the final path component starts: right after the last
/// '/', or zero when there is none.
pub open spec fn spec_name_start(s: Seq<char>) -> int
    decreases s.len(),
{
    if s.len() == 0 {
        0
    } else if s.last() == '/' {
        s.len() as int
    } else {
        spec_name_start(s.drop_last())
    }
}

/// The final component of `s`: everything after the last '/'.
pub open spec fn spec_file_part(s: Seq<char>) -> Seq<char> {
    s.skip(spec_name_start(s))
}

/// The file name of `s`: its final component, unless that is empty or the
/// parent alias "..".
pub open spec fn spec_file_name(s: Seq<char>) -> Option<Seq<char>> {
    let f = spec_file_part(s);
    if f.len() == 0 || f == seq!['.', '.'] {
        Option::None
    } else {
        Option::Some(f)
    }
}

/// `dir` and `name` joined with a '/' unless `dir` is empty or already
/// ends in one.
pub open spec fn spec_join(dir: Seq<char>, name: Seq<char>) -> Seq<char> {
    if dir.len() == 0 {
        name
    } else if dir.last() == '/' {
        dir + name
    } else {
        dir + seq!['/'] + name
    }
}

/// The directory containing `s`: everything before the last '/', the root
/// "/" staying itself; nothing for the root or for a path without '/'.
pub open spec fn spec_parent(s: Seq<char>) -> Option<Seq<char>> {
    let st = spec_name_start(s);
    if s.len() == 1 && s[0] == '/' {
        Option::None
    } else if st == 0 {
        Option::None
    } else if st == 1 {
        Option::Some(s.take(1))
    } else {
        Option::Some(s.take(st - 1))
    }
}

proof fn lemma_name_start_bounds(s: Seq<char>)
    ensures
        0 <= spec_name_start(s) <= s.len(),
    decreases s.len(),
{
    if s.len() > 0 && s.last() != '/' {
        lemma_name_start_bounds(s.drop_last());
    }
}

fn find_name_start(path: &str) -> (r: usize)
    ensures
        r == spec_name_start(path@),
{
    let n = path.unicode_len();
    let mut i: usize = 0;
    let mut start: usize = 0;
    proof {
        assert(path@.take(0) =~= Seq::<char>::empty());
    }
    while i < n
        invariant
            0 <= i <= n,
            n == path@.len(),
            start == spec_name_start(path@.take(i as int)),
            start <= i,
        decreases n - i,
    {
        let c = path.get_char(i);
        if c == '/' {
            start = i + 1;
        }
        proof {
            let t = path@.take(i + 1);
            assert(t.last() == path@[i as int]);
            assert(t.drop_last() =~= path@.take(i as int));
        }
        i = i + 1;
    }
    proof {
        assert(path@.take(n as int) =~= path@);
    }
    start
}

/// The final component of `path`, or nothing when that component is empty
/// or the parent alias "..".
pub fn file_name_of(path: &str) -> (r: Option<String>)
    ensures
        r is Some <==> spec_file_name(path@) is Some,
        r matches Some(name) ==> spec_file_name(path@) == Option::Some(name@),
{
    let n = path.unicode_len();
    let start = find_name_start(path);
    proof {
        lemma_name_start_bounds(path@);
    }
    let part = path.substring_char(start, n);
    assert(part@ =~= spec_file_part(path@));
    let part_len = part.unicode_len();
    if part_len == 0 {
        return Option::None;
    }
    if part_len == 2 {
        let c0 = part.get_char(0);
        let c1 = part.get_char(1);
        if c0 == '.' && c1 == '.' {
            assert(part@ =~= seq!['.', '.']);
            return Option::None;
        }
    }
    assert(part@ != seq!['.', '.']) by {
        if part@ == seq!['.', '.'] {
            assert(part@.len() == 2);
        }
    }
    Option::Some(part.to_owned())
}

/// `dir` and `name` joined with a '/' unless `dir` is empty or already
/// ends in one.
pub fn join_path(dir: &str, name: &str) -> (r: String)
    ensures
        r@ == spec_join(dir@, name@),
{
    let n = dir.unicode_len();
    if n == 0 {
        name.to_owned()
    } else if dir.get_char(n - 1) == '/' {
        let mut s = dir.to_owned();
        s.append(name);
        assert(s@ =~= dir@ + name@);
        s
    } else {
        let mut s = dir.to_owned();
        proof {
            reveal_strlit("/");
        }
        s.append("/");
        s.append(name);
        assert(s@ =~= dir@ + seq!['/'] + name@);
        s
    }
}

/// The directory containing `path`, or nothing for the root or for a path
/// without '/'.
pub fn parent_of(path: &str) -> (r: Option<String>)
    ensures
        r is Some <==> spec_parent(path@) is Some,
        r matches Some(p) ==> spec_parent(path@) == Option::Some(p@),
{
    let n = path.unicode_len();
    if n == 1 && path.get_char(0) == '/' {
        return Option::None;
    }
    let start = find_name_start(path);
    proof {
        lemma_name_start_bounds(path@);
    }
    if start == 0 {
        Option::None
    } else if start == 1 {
        let p = path.substring_char(0, 1);
        Option::Some(p.to_owned())
    } else {
        let p = path.substring_char(0, start - 1);
        Option::Some(p.to_owned())
    }
}

// ---------------------------------------------------------------------------
// Lexicographic order on paths, by character code.
// ---------------------------------------------------------------------------
/// `a` is at or before `b` in lexicographic order by character code.
pub open spec fn lex_le(a: Seq<char>, b: Seq<char>) -> bool
    decreases a.len(),
{
    if a.len() == 0 {
        true
    } else if b.len() == 0 {
        false
    } else if a[0] == b[0] {
        lex_le(a.drop_first(), b.drop_first())
    } else {
        (a[0] as int) < (b[0] as int)
    }
}

/// Any two strings are lexicographically comparable.
pub proof fn lemma_lex_le_total(a: Seq<char>, b: Seq<char>)
    ensures
        lex_le(a, b) || lex_le(b, a),
    decreases a.len(),
{
    if a.len() > 0 && b.len() > 0 && a[0] == b[0] {
        lemma_lex_le_total(a.drop_first(), b.drop_first());
    } else if a.len() > 0 && b.len() > 0 {
        assert((a[0] as int) != (b[0] as int));
    }
}

/// Lexicographic order is transitive.
pub proof fn lemma_lex_le_trans(a: Seq<char>, b: Seq<char>, c: Seq<char>)
    requires
        lex_le(a, b),
        lex_le(b, c),
    ensures
        lex_le(a, c),
    decreases a.len(),
{
    if a.len() > 0 && b.len() > 0 && c.len() > 0 && a[0] == b[0] && b[0] == c[0] {
        lemma_lex_le_trans(a.drop_first(), b.drop_first(), c.drop_first());
    }
}

/// Compare two strings in lexicographic order by character code.
pub fn str_lex_le(a: &str, b: &str) -> (r: bool)
    ensures
        r == lex_le(a@, b@),
{
    let na = a.unicode_len();
    let nb = b.unicode_len();
    let mut i: usize = 0;
    proof {
        assert(a@.skip(0) =~= a@);
        assert(b@.skip(0) =~= b@);
    }
    loop
        invariant
            0 <= i <= na,
            0 <= i <= nb,
            na == a@.len(),
            nb == b@.len(),
            lex_le(a@, b@) == lex_le(a@.skip(i as int), b@.skip(i as int)),
        decreases na - i,
    {
        if i >= na {
            return true;
        }
        if i >= nb {
            return false;
        }
        let ca = a.get_char(i);
        let cb = b.get_char(i);
        if ca == cb {
            proof {
                assert(a@.skip(i as int).drop_first() =~= a@.skip(i + 1));
                assert(b@.skip(i as int).drop_first() =~= b@.skip(i + 1));
            }
            i = i + 1;
        } else {
            return (ca as u32) < (cb as u32);
        }
    }
}

// ---------------------------------------------------------------------------
// Directory entries.
// ---------------------------------------------------------------------------
/// What one listing entry stands for.
pub enum EntryKind {
    File,
    Directory,
    Parent,
    Symlink,
}

/// One filesystem object in a listing, of either namespace.
pub trait FileEntry: Sized {
    /// The full path of this entry.
    spec fn spec_path(&self) -> Seq<char>;

    /// Which kind of object this entry is.
    spec fn spec_kind(&self) -> EntryKind;

    /// The size of this entry, known only for files.
    spec fn spec_size(&self) -> Option<u64>;

    /// Return the full path of this entry.
    fn path(&self) -> (r: &str)
        ensures
            r@ == self.spec_path(),
    ;

    /// Return true if this entry is a directory or a parent directory.
    fn is_dir(&self) -> (r: bool)
        ensures
            r == (self.spec_kind() == EntryKind::Directory || self.spec_kind()
                == EntryKind::Parent),
    ;

    /// Return true if this entry is a file.
    fn is_file(&self) -> (r: bool)
        ensures
            r == (self.spec_kind() == EntryKind::File),
    ;

    /// Return true if this entry is a parent directory.
    fn is_parent(&self) -> (r: bool)
        ensures
            r == (self.spec_kind() == EntryKind::Parent),
    ;

    /// Return true if this entry is a symbolic link.
    fn is_symlink(&self) -> (r: bool)
        ensures
            r == (self.spec_kind() == EntryKind::Symlink),
    ;

    /// Return the size of this entry.
    fn len(&self) -> (r: Option<u64>)
        ensures
            r == self.spec_size(),
    ;
}

/// One object in the local filesystem namespace.
pub enum LocalFileEntry {
    File(String, u64),
    Directory(String),
    Parent(String),
    Symlink(String),
}

/// One object in the remote filesystem namespace.
pub enum RemoteFileEntry {
    File(String, u64),
    Directory(String),
    Parent(String),
    Symlink(String),
}

impl FileEntry for LocalFileEntry {
    open spec fn spec_path(&self) -> Seq<char> {
        match self {
            LocalFileEntry::File(path, _) => path@,
            LocalFileEntry::Directory(path) => path@,
            LocalFileEntry::Parent(path) => path@,
            LocalFileEntry::Symlink(path) => path@,
        }
    }

    open spec fn spec_kind(&self) -> EntryKind {
        match self {
            LocalFileEntry::File(_, _) => EntryKind::File,
            LocalFileEntry::Directory(_) => EntryKind::Directory,
            LocalFileEntry::Parent(_) => EntryKind::Parent,
            LocalFileEntry::Symlink(_) => EntryKind::Symlink,
        }
    }

    open spec fn spec_size(&self) -> Option<u64> {
        match self {
            LocalFileEntry::File(_, n) => Option::Some(*n),
            _ => Option::None,
        }
    }

    fn path(&self) -> (r: &str) {
        match self {
            LocalFileEntry::File(path, _) => path.as_str(),
            LocalFileEntry::Directory(path) => path.as_str(),
            LocalFileEntry::Parent(path) => path.as_str(),
            LocalFileEntry::Symlink(path) => path.as_str(),
        }
    }

    fn is_dir(&self) -> (r: bool) {
        match self {
            LocalFileEntry::Directory(_) => true,
            LocalFileEntry::Parent(_) => true,
            _ => false,
        }
    }

    fn is_file(&self) -> (r: bool) {
        match self {
            LocalFileEntry::File(_, _) => true,
            _ => false,
        }
    }

    fn is_parent(&self) -> (r: bool) {
        match self {
            LocalFileEntry::Parent(_) => true,
            _ => false,
        }
    }

    fn is_symlink(&self) -> (r: bool) {
        match self {
            LocalFileEntry::Symlink(_) => true,
            _ => false,
        }
    }

    fn len(&self) -> (r: Option<u64>) {
        match self {
            LocalFileEntry::File(_, n) => Option::Some(*n),
            _ => Option::None,
        }
    }
}

impl FileEntry for RemoteFileEntry {
    open spec fn spec_path(&self) -> Seq<char> {
        match self {
            RemoteFileEntry::File(path, _) => path@,
            RemoteFileEntry::Directory(path) => path@,
            RemoteFileEntry::Parent(path) => path@,
            RemoteFileEntry::Symlink(path) => path@,
        }
    }

    open spec fn spec_kind(&self) -> EntryKind {
        match self {
            RemoteFileEntry::File(_, _) => EntryKind::File,
            RemoteFileEntry::Directory(_) => EntryKind::Directory,
            RemoteFileEntry::Parent(_) => EntryKind::Parent,
            RemoteFileEntry::Symlink(_) => EntryKind::Symlink,
        }
    }

    open spec fn spec_size(&self) -> Option<u64> {
        match self {
            RemoteFileEntry::File(_, n) => Option::Some(*n),
            _ => Option::None,
        }
    }

    fn path(&self) -> (r: &str) {
        match self {
            RemoteFileEntry::File(path, _) => path.as_str(),
            RemoteFileEntry::Directory(path) => path.as_str(),
            RemoteFileEntry::Parent(path) => path.as_str(),
            RemoteFileEntry::Symlink(path) => path.as_str(),
        }
    }

    fn is_dir(&self) -> (r: bool) {
        match self {
            RemoteFileEntry::Directory(_) => true,
            RemoteFileEntry::Parent(_) => true,
            _ => false,
        }
    }

    fn is_file(&self) -> (r: bool) {
        match self {
            RemoteFileEntry::File(_, _) => true,
            _ => false,
        }
    }

    fn is_parent(&self) -> (r: bool) {
        match self {
            RemoteFileEntry::Parent(_) => true,
            _ => false,
        }
    }

    fn is_symlink(&self) -> (r: bool) {
        match self {
            RemoteFileEntry::Symlink(_) => true,
            _ => false,
        }
    }

    fn len(&self) -> (r: Option<u64>) {
        match self {
            RemoteFileEntry::File(_, n) => Option::Some(*n),
            _ => Option::None,
        }
    }
}

impl Clone for LocalFileEntry {
    /// An exact copy of the entry.
    fn clone(&self) -> (r: Self)
        ensures
            r == *self,
    {
        match self {
            LocalFileEntry::File(path, n) => LocalFileEntry::File(path.clone(), *n),
            LocalFileEntry::Directory(path) => LocalFileEntry::Directory(path.clone()),
            LocalFileEntry::Parent(path) => LocalFileEntry::Parent(path.clone()),
            LocalFileEntry::Symlink(path) => LocalFileEntry::Symlink(path.clone()),
        }
    }
}

impl Clone for RemoteFileEntry {
    /// An exact copy of the entry.
    fn clone(&self) -> (r: Self)
        ensures
            r == *self,
    {
        match self {
            RemoteFileEntry::File(path, n) => RemoteFileEntry::File(path.clone(), *n),
            RemoteFileEntry::Directory(path) => RemoteFileEntry::Directory(path.clone()),
            RemoteFileEntry::Parent(path) => RemoteFileEntry::Parent(path.clone()),
            RemoteFileEntry::Symlink(path) => RemoteFileEntry::Symlink(path.clone()),
        }
    }
}

/// An entry is hidden when its file name begins with '.'; a parent marker
/// is never hidden.
pub open spec fn spec_is_hidden<E: FileEntry>(e: E) -> bool {
    &&& e.spec_kind() != EntryKind::Parent
    &&& spec_file_part(e.spec_path()).len() > 0
    &&& spec_file_part(e.spec_path())[0] == '.'
}

/// Return true if this entry is a hidden file or directory.
pub fn entry_is_hidden<E: FileEntry>(e: &E) -> (r: bool)
    ensures
        r == spec_is_hidden(*e),
{
    if e.is_parent() {
        false
    } else {
        let p = e.path();
        let n = p.unicode_len();
        let start = find_name_start(p);
        proof {
            lemma_name_start_bounds(p@);
        }
        if start < n {
            p.get_char(start) == '.'
        } else {
            false
        }
    }
}

// ---------------------------------------------------------------------------
// Listing order: the parent marker first, then paths in lexicographic order.
// ---------------------------------------------------------------------------
/// `a` sorts at or before `b` in a listing.
pub open spec fn entry_le<E: FileEntry>(a: E, b: E) -> bool {
    if a.spec_kind() == EntryKind::Parent {
        true
    } else if b.spec_kind() == EntryKind::Parent {
        false
    } else {
        lex_le(a.spec_path(), b.spec_path())
    }
}

/// The entries of `s` are in listing order.
pub open spec fn sorted_entries<E: FileEntry>(s: Seq<E>) -> bool {
    forall|i: int, j: int| 0 <= i < j < s.len() ==> entry_le(#[trigger] s[i], #[trigger] s[j])
}

/// Any two entries are comparable in listing order.
pub proof fn lemma_entry_le_total<E: FileEntry>(a: E, b: E)
    ensures
        entry_le(a, b) || entry_le(b, a),
{
    lemma_lex_le_total(a.spec_path(), b.spec_path());
}

/// Listing order is transitive.
pub proof fn lemma_entry_le_trans<E: FileEntry>(a: E, b: E, c: E)
    requires
        entry_le(a, b),
        entry_le(b, c),
    ensures
        entry_le(a, c),
{
    if a.spec_kind() != EntryKind::Parent && b.spec_kind() != EntryKind::Parent && c.spec_kind()
        != EntryKind::Parent {
        lemma_lex_le_trans(a.spec_path(), b.spec_path(), c.spec_path());
    }
}

/// Compare two entries in listing order.
pub fn entry_le_exec<E: FileEntry>(a: &E, b: &E) -> (r: bool)
    ensures
        r == entry_le(*a, *b),
{
    if a.is_parent() {
        true
    } else if b.is_parent() {
        false
    } else {
        str_lex_le(a.path(), b.path())
    }
}

// ---------------------------------------------------------------------------
// Hidden-file filtering and sorting of listings.
// ---------------------------------------------------------------------------
/// `s` with, unless `keep_hidden` is set, every hidden entry removed;
/// order kept.
pub open spec fn spec_visible<E: FileEntry>(s: Seq<E>, keep_hidden: bool) -> Seq<E>
    decreases s.len(),
{
    if s.len() == 0 {
        Seq::empty()
    } else if !keep_hidden && spec_is_hidden(s[0]) {
        spec_visible(s.drop_first(), keep_hidden)
    } else {
        seq![s[0]] + spec_visible(s.drop_first(), keep_hidden)
    }
}

/// Drop every hidden entry from `v`, unless `keep_hidden` is set; the
/// others keep their order.
pub fn retain_visible<E: FileEntry>(v: &mut Vec<E>, keep_hidden: bool)
    ensures
        final(v)@ == spec_visible(old(v)@, keep_hidden),
{
    let ghost orig = v@;
    let mut i: usize = 0;
    let ghost mut k: int = 0;
    proof {
        assert(orig.skip(0) =~= orig);
        assert(v@.take(0) =~= Seq::<E>::empty());
    }
    while i < v.len()
        invariant
            0 <= i <= v@.len(),
            0 <= k <= orig.len(),
            i == v@.len() - (orig.len() - k),
            v@ =~= v@.take(i as int) + orig.skip(k),
            spec_visible(orig, keep_hidden) =~= v@.take(i as int) + spec_visible(
                orig.skip(k),
                keep_hidden,
            ),
        decreases orig.len() - k,
    {
        let ghost pre = orig.skip(k);
        proof {
            assert(pre.len() > 0);
            assert(pre[0] == v@[i as int]);
            assert(pre.drop_first() =~= orig.skip(k + 1));
        }
        let hidden = entry_is_hidden(&v[i]);
        if !keep_hidden && hidden {
            v.remove(i);
            proof {
                assert(v@ =~= v@.take(i as int) + orig.skip(k + 1));
            }
        } else {
            i = i + 1;
            proof {
                assert(v@.take(i as int) =~= v@.take(i - 1).push(pre[0]));
                assert(spec_visible(pre, keep_hidden) =~= seq![pre[0]] + spec_visible(
                    pre.drop_first(),
                    keep_hidden,
                ));
                assert(spec_visible(orig, keep_hidden) =~= v@.take(i as int) + spec_visible(
                    orig.skip(k + 1),
                    keep_hidden,
                ));
            }
        }
        proof {
            k = k + 1;
        }
    }
    proof {
        assert(k == orig.len());
        assert(orig.skip(orig.len() as int) =~= Seq::<E>::empty());
        assert(v@.take(i as int) =~= v@);
        assert(v@ =~= spec_visible(orig, keep_hidden));
    }
}

proof fn lemma_to_multiset_insert<A>(s: Seq<A>, k: int, x: A)
    requires
        0 <= k <= s.len(),
    ensures
        s.insert(k, x).to_multiset() =~= s.to_multiset().insert(x),
{
    broadcast use vstd::seq_lib::group_to_multiset_ensures;
    broadcast use vstd::multiset::group_multiset_axioms;

    let t = s.insert(k, x);
    assert(t =~= s.take(k) + (seq![x] + s.skip(k)));
    vstd::seq_lib::lemma_multiset_commutative(s.take(k), seq![x] + s.skip(k));
    vstd::seq_lib::lemma_multiset_commutative(seq![x], s.skip(k));
    assert(s =~= s.take(k) + s.skip(k));
    vstd::seq_lib::lemma_multiset_commutative(s.take(k), s.skip(k));
    assert(seq![x] =~= Seq::<A>::empty().push(x));
    assert(seq![x].to_multiset() =~= vstd::multiset::Multiset::<A>::empty().insert(x));
}

fn insertion_point<E: FileEntry>(v: &Vec<E>, x: &E, i: usize) -> (k: usize)
    requires
        i <= v@.len(),
    ensures
        k <= i,
        forall|t: int| 0 <= t < k ==> entry_le(#[trigger] v@[t], *x),
        k < i ==> !entry_le(v@[k as int], *x),
{
    let mut k: usize = 0;
    while k < i
        invariant
            0 <= k <= i,
            i <= v@.len(),
            forall|t: int| 0 <= t < k ==> entry_le(#[trigger] v@[t], *x),
        decreases i - k,
    {
        if entry_le_exec(&v[k], x) {
            k = k + 1;
        } else {
            return k;
        }
    }
    k
}

/// Put the entries of `v` into listing order.  The multiset of entries is
/// unchanged.
pub fn sort_entries<E: FileEntry>(v: &mut Vec<E>)
    ensures
        sorted_entries(final(v)@),
        final(v)@.to_multiset() == old(v)@.to_multiset(),
{
    broadcast use vstd::seq_lib::group_to_multiset_ensures;
    broadcast use vstd::multiset::group_multiset_axioms;

    let ghost orig = v@;
    if v.len() <= 1 {
        return ;
    }
    let mut i: usize = 1;
    while i < v.len()
        invariant
            1 <= i <= v@.len(),
            v@.len() == orig.len(),
            sorted_entries(v@.take(i as int)),
            v@.to_multiset() == orig.to_multiset(),
        decreases v@.len() - i,
    {
        let ghost w = v@;
        let x = v.remove(i);
        proof {
            assert(v@.take(i as int) =~= w.take(i as int));
        }
        let k = insertion_point(v, &x, i);
        let ghost u = v@;
        v.insert(k, x);
        proof {
            lemma_to_multiset_insert(u, k as int, x);
            w.to_multiset_ensures();
            assert(w.contains(x)) by {
                assert(w[i as int] == x);
            }
            assert(w.to_multiset().count(x) > 0);
            assert(u =~= w.remove(i as int));
            assert(u.to_multiset() =~= w.to_multiset().remove(x));
            assert(v@.to_multiset() =~= w.to_multiset().remove(x).insert(x));
            assert(v@.to_multiset() =~= orig.to_multiset());
            let nt = v@.take(i + 1);
            assert(forall|t: int| 0 <= t < k ==> nt[t] == u.take(i as int)[t]);
            assert(nt[k as int] == x);
            assert(forall|t: int| k < t <= i ==> nt[t] == u.take(i as int)[t - 1]);
            if (k as int) < i {
                lemma_entry_le_total(u[k as int], x);
            }
            assert forall|p: int, q: int| 0 <= p < q < nt.len() implies entry_le(
                #[trigger] nt[p],
                #[trigger] nt[q],
            ) by {
                let st = u.take(i as int);
                assert(sorted_entries(st));
                if p < k && q < k {
                    assert(entry_le(st[p], st[q]));
                } else if p < k && q == k {
                    assert(entry_le(st[p], x));
                } else if p < k && q > k {
                    assert(entry_le(st[p], st[q - 1]));
                } else if p == k && q > k {
                    assert(entry_le(x, st[k as int]));
                    if q - 1 > k {
                        lemma_entry_le_trans(x, st[k as int], st[q - 1]);
                    }
                } else {
                    assert(entry_le(st[p - 1], st[q - 1]));
                }
            }
            assert(sorted_entries(nt));
        }
        i = i + 1;
    }
    proof {
        assert(v@.take(i as int) =~= v@);
    }
}

// ---------------------------------------------------------------------------
// The navigation model: two listings and one cursor.
// ---------------------------------------------------------------------------
/// Which entry the cursor addresses: an index into one of the two
/// listings, or nothing.
#[derive(Clone, Copy)]
pub enum SelectedFileEntryIndex {
    Local(usize),
    Remote(usize),
    Nothing,
}

/// The entry the cursor addresses, copied out of its listing.
pub enum SelectedFileEntry {
    Local(LocalFileEntry),
    Remote(RemoteFileEntry),
    Nothing,
}

/// The cursor index after moving by `delta` with wraparound in a listing
/// of length `n`.
pub open spec fn spec_move_index(i: int, delta: int, n: int) -> int {
    (i + delta) % n
}

/// The cursor after re-clamping and moving by `delta` against listings of
/// lengths `nl` and `nr`: a move in a non-empty listing wraps around; an
/// empty listing falls back to the start of the other one, or to nothing
/// when both are empty.
pub open spec fn spec_apply(
    sel: SelectedFileEntryIndex,
    delta: int,
    nl: int,
    nr: int,
) -> SelectedFileEntryIndex {
    match sel {
        SelectedFileEntryIndex::Local(i) => {
            if nl > 0 {
                SelectedFileEntryIndex::Local(spec_move_index(i as int, delta, nl) as usize)
            } else if nr > 0 {
                SelectedFileEntryIndex::Remote(0)
            } else {
                SelectedFileEntryIndex::Nothing
            }
        },
        SelectedFileEntryIndex::Remote(i) => {
            if nr > 0 {
                SelectedFileEntryIndex::Remote(spec_move_index(i as int, delta, nr) as usize)
            } else if nl > 0 {
                SelectedFileEntryIndex::Local(0)
            } else {
                SelectedFileEntryIndex::Nothing
            }
        },
        SelectedFileEntryIndex::Nothing => {
            if nr > 0 {
                SelectedFileEntryIndex::Remote(0)
            } else if nl > 0 {
                SelectedFileEntryIndex::Local(0)
            } else {
                SelectedFileEntryIndex::Nothing
            }
        },
    }
}

/// The cursor after switching panes: the index carries over into the
/// other listing, clamped by wraparound; an empty destination falls back
/// as a re-clamp does.
pub open spec fn spec_toggle(
    sel: SelectedFileEntryIndex,
    nl: int,
    nr: int,
) -> SelectedFileEntryIndex {
    match sel {
        SelectedFileEntryIndex::Local(i) => {
            if nr > 0 {
                SelectedFileEntryIndex::Remote(((i as int) % nr) as usize)
            } else if nl > 0 {
                SelectedFileEntryIndex::Local(0)
            } else {
                SelectedFileEntryIndex::Nothing
            }
        },
        SelectedFileEntryIndex::Remote(i) => {
            if nl > 0 {
                SelectedFileEntryIndex::Local(((i as int) % nl) as usize)
            } else if nr > 0 {
                SelectedFileEntryIndex::Remote(0)
            } else {
                SelectedFileEntryIndex::Nothing
            }
        },
        SelectedFileEntryIndex::Nothing => {
            if nr > 0 {
                SelectedFileEntryIndex::Remote(0)
            } else if nl > 0 {
                SelectedFileEntryIndex::Local(0)
            } else {
                SelectedFileEntryIndex::Nothing
            }
        },
    }
}

proof fn lemma_move_cases(i: int, delta: int, n: int)
    requires
        0 <= i,
        -1 <= delta <= 1,
        0 < n,
    ensures
        0 <= spec_move_index(i, delta, n) < n,
        delta == 0 ==> spec_move_index(i, delta, n) == i % n,
        delta == 1 ==> spec_move_index(i, delta, n) == (if i % n == n - 1 {
            0int
        } else {
            i % n + 1
        }),
        delta == -1 ==> spec_move_index(i, delta, n) == (if i % n == 0 {
            n - 1
        } else {
            i % n - 1
        }),
{
    vstd::arithmetic::div_mod::lemma_fundamental_div_mod(i, n);
    vstd::arithmetic::div_mod::lemma_mod_bound(i, n);
    vstd::arithmetic::div_mod::lemma_mod_bound(i + delta, n);
    let q = i / n;
    let r = i % n;
    assert(n * q == q * n) by (nonlinear_arith);
    if delta == 1 {
        if r + 1 < n {
            vstd::arithmetic::div_mod::lemma_fundamental_div_mod_converse(i + 1, n, q, r + 1);
        } else {
            assert((q + 1) * n == q * n + n) by (nonlinear_arith);
            vstd::arithmetic::div_mod::lemma_fundamental_div_mod_converse(i + 1, n, q + 1, 0);
        }
    } else if delta == -1 {
        if r == 0 {
            assert((q - 1) * n == q * n - n) by (nonlinear_arith);
            vstd::arithmetic::div_mod::lemma_fundamental_div_mod_converse(i - 1, n, q - 1, n - 1);
        } else {
            vstd::arithmetic::div_mod::lemma_fundamental_div_mod_converse(i - 1, n, q, r - 1);
        }
    }
}

proof fn lemma_apply_wf(sel: SelectedFileEntryIndex, delta: int, nl: int, nr: int)
    requires
        -1 <= delta <= 1,
        0 <= nl,
        0 <= nr,
    ensures
        match spec_apply(sel, delta, nl, nr) {
            SelectedFileEntryIndex::Local(j) => 0 < nl && j < nl,
            SelectedFileEntryIndex::Remote(j) => 0 < nr && j < nr,
            SelectedFileEntryIndex::Nothing => nl == 0 && nr == 0,
        },
{
    match sel {
        SelectedFileEntryIndex::Local(i) => {
            if nl > 0 {
                lemma_move_cases(i as int, delta, nl);
            }
        },
        SelectedFileEntryIndex::Remote(i) => {
            if nr > 0 {
                lemma_move_cases(i as int, delta, nr);
            }
        },
        SelectedFileEntryIndex::Nothing => {},
    }
}

/// The iterated cursor move: `k` single steps of `delta` in a listing of
/// length `n`.
pub open spec fn spec_iter_move(i: int, delta: int, n: int, k: nat) -> int
    decreases k,
{
    if k == 0 {
        i
    } else {
        spec_move_index(spec_iter_move(i, delta, n, (k - 1) as nat), delta, n)
    }
}

proof fn lemma_iter_move_forward(i: int, n: int, k: nat)
    requires
        0 <= i < n,
    ensures
        spec_iter_move(i, 1, n, k) == (i + k) % n,
    decreases k,
{
    if k == 0 {
        vstd::arithmetic::div_mod::lemma_small_mod(i as nat, n as nat);
    } else {
        lemma_iter_move_forward(i, n, (k - 1) as nat);
        let x = i + k - 1;
        vstd::arithmetic::div_mod::lemma_fundamental_div_mod(x, n);
        vstd::arithmetic::div_mod::lemma_mod_bound(x, n);
        let q = x / n;
        let r = x % n;
        assert(n * q == q * n) by (nonlinear_arith);
        lemma_move_cases(r, 1, n);
        if r == n - 1 {
            assert((q + 1) * n == q * n + n) by (nonlinear_arith);
            vstd::arithmetic::div_mod::lemma_fundamental_div_mod_converse(x + 1, n, q + 1, 0);
        } else {
            vstd::arithmetic::div_mod::lemma_fundamental_div_mod_converse(x + 1, n, q, r + 1);
        }
        vstd::arithmetic::div_mod::lemma_small_mod(r as nat, n as nat);
    }
}

proof fn lemma_iter_move_backward(i: int, n: int, k: nat)
    requires
        0 <= i < n,
    ensures
        spec_iter_move(i, -1, n, k) == (i + k * (n - 1)) % n,
    decreases k,
{
    if k == 0 {
        vstd::arithmetic::div_mod::lemma_small_mod(i as nat, n as nat);
    } else {
        lemma_iter_move_backward(i, n, (k - 1) as nat);
        let x = i + (k - 1) * (n - 1);
        assert(x >= 0) by (nonlinear_arith)
            requires
                0 <= i,
                k >= 1,
                n >= 1,
                x == i + (k - 1) * (n - 1),
        ;
        vstd::arithmetic::div_mod::lemma_fundamental_div_mod(x, n);
        vstd::arithmetic::div_mod::lemma_mod_bound(x, n);
        let q = x / n;
        let r = x % n;
        assert(n * q == q * n) by (nonlinear_arith);
        vstd::arithmetic::div_mod::lemma_small_mod(r as nat, n as nat);
        lemma_move_cases(r, -1, n);
        if r == 0 {
            assert((q - 1) * n == q * n - n) by (nonlinear_arith);
            vstd::arithmetic::div_mod::lemma_fundamental_div_mod_converse(x - 1, n, q - 1, n - 1);
        } else {
            vstd::arithmetic::div_mod::lemma_fundamental_div_mod_converse(x - 1, n, q, r - 1);
            vstd::arithmetic::div_mod::lemma_small_mod((r - 1) as nat, n as nat);
        }
        assert(x - 1 + n == i + k * (n - 1)) by (nonlinear_arith)
            requires
                x == i + (k - 1) * (n - 1),
        ;
        vstd::arithmetic::div_mod::lemma_mod_multiples_vanish(1, x - 1, n);
        assert(n * 1 + (x - 1) == x - 1 + n);
    }
}

/// Wraparound law: in a non-empty listing of length `n`, moving the
/// cursor forward one step `n` times returns it to its starting index,
/// and so does moving it backward one step `n` times.
pub proof fn lemma_move_cursor_wraparound(i: int, n: int)
    requires
        0 <= i < n,
    ensures
        spec_iter_move(i, 1, n, n as nat) == i,
        spec_iter_move(i, -1, n, n as nat) == i,
{
    lemma_iter_move_forward(i, n, n as nat);
    vstd::arithmetic::div_mod::lemma_mod_multiples_vanish(1, i, n);
    assert(n * 1 + i == i + n);
    vstd::arithmetic::div_mod::lemma_small_mod(i as nat, n as nat);
    lemma_iter_move_backward(i, n, n as nat);
    vstd::arithmetic::div_mod::lemma_mod_multiples_vanish(n - 1, i, n);
    assert(n * (n - 1) + i == i + n * (n - 1)) by (nonlinear_arith);
}

/// Toggling the pane twice returns the cursor to the pane it started in;
/// the index may change when the destination pane clamps it.
pub proof fn lemma_toggle_pane_twice(sel: SelectedFileEntryIndex, nl: int, nr: int)
    requires
        0 <= nl,
        0 <= nr,
        sel matches SelectedFileEntryIndex::Local(i) ==> i < nl,
        sel matches SelectedFileEntryIndex::Remote(i) ==> i < nr,
    ensures
        sel is Local ==> spec_toggle(spec_toggle(sel, nl, nr), nl, nr) is Local,
        sel is Remote ==> spec_toggle(spec_toggle(sel, nl, nr), nl, nr) is Remote,
{
    match sel {
        SelectedFileEntryIndex::Local(i) => {
            if nr > 0 {
                vstd::arithmetic::div_mod::lemma_mod_bound(i as int, nr);
            }
        },
        SelectedFileEntryIndex::Remote(i) => {
            if nl > 0 {
                vstd::arithmetic::div_mod::lemma_mod_bound(i as int, nl);
            }
        },
        SelectedFileEntryIndex::Nothing => {},
    }
}

/// The dual-pane navigation model: a local and a remote listing, each
/// with its working directory, and one cursor addressing at most one
/// entry of one listing.
pub struct FileList {
    local_directory: String,
    remote_directory: String,
    local_entries: Vec<LocalFileEntry>,
    remote_entries: Vec<RemoteFileEntry>,
    selected: SelectedFileEntryIndex,
}

/// `out` is the listing derived from the raw entries `raw` of directory
/// `dir`: a parent marker first when `dir` has a parent, hidden entries
/// removed unless `keep_hidden` is set, the whole in listing order.
pub open spec fn local_listing_ok(
    out: Seq<LocalFileEntry>,
    dir: Seq<char>,
    raw: Seq<LocalFileEntry>,
    keep_hidden: bool,
) -> bool {
    &&& sorted_entries(out)
    &&& match spec_parent(dir) {
        Option::None => out.to_multiset() == spec_visible(raw, keep_hidden).to_multiset(),
        Option::Some(p) => exists|pe: LocalFileEntry|
            pe.spec_kind() == EntryKind::Parent && pe.spec_path() == p && out.to_multiset()
                == spec_visible(#[trigger] (seq![pe] + raw), keep_hidden).to_multiset(),
    }
}

/// As `local_listing_ok`, for the remote namespace.
pub open spec fn remote_listing_ok(
    out: Seq<RemoteFileEntry>,
    dir: Seq<char>,
    raw: Seq<RemoteFileEntry>,
    keep_hidden: bool,
) -> bool {
    &&& sorted_entries(out)
    &&& match spec_parent(dir) {
        Option::None => out.to_multiset() == spec_visible(raw, keep_hidden).to_multiset(),
        Option::Some(p) => exists|pe: RemoteFileEntry|
            pe.spec_kind() == EntryKind::Parent && pe.spec_path() == p && out.to_multiset()
                == spec_visible(#[trigger] (seq![pe] + raw), keep_hidden).to_multiset(),
    }
}

impl FileList {
    /// The current local working directory.
    pub closed spec fn spec_local_dir(&self) -> Seq<char> {
        self.local_directory@
    }

    /// The current remote working directory.
    pub closed spec fn spec_remote_dir(&self) -> Seq<char> {
        self.remote_directory@
    }

    /// The local listing, in listing order.
    pub closed spec fn spec_local_entries(&self) -> Seq<LocalFileEntry> {
        self.local_entries@
    }

    /// The remote listing, in listing order.
    pub closed spec fn spec_remote_entries(&self) -> Seq<RemoteFileEntry> {
        self.remote_entries@
    }

    /// The cursor.
    pub closed spec fn spec_selected(&self) -> SelectedFileEntryIndex {
        self.selected
    }

    /// The cursor addresses a real entry, and is absent only when both
    /// listings are empty.
    pub open spec fn wf(&self) -> bool {
        match self.spec_selected() {
            SelectedFileEntryIndex::Local(i) => i < self.spec_local_entries().len(),
            SelectedFileEntryIndex::Remote(i) => i < self.spec_remote_entries().len(),
            SelectedFileEntryIndex::Nothing => self.spec_local_entries().len() == 0
                && self.spec_remote_entries().len() == 0,
        }
    }

    /// An empty navigation model: no entries, no cursor, empty working
    /// directories.
    pub fn new() -> (r: FileList)
        ensures
            r.wf(),
            r.spec_local_dir() == Seq::<char>::empty(),
            r.spec_remote_dir() == Seq::<char>::empty(),
            r.spec_local_entries() == Seq::<LocalFileEntry>::empty(),
            r.spec_remote_entries() == Seq::<RemoteFileEntry>::empty(),
            r.spec_selected() == SelectedFileEntryIndex::Nothing,
    {
        FileList {
            local_directory: String::new(),
            remote_directory: String::new(),
            local_entries: Vec::new(),
            remote_entries: Vec::new(),
            selected: SelectedFileEntryIndex::Nothing,
        }
    }

    /// Apply one cursor step of `delta` (or a bare re-clamp, for zero),
    /// with wraparound and fallback to the other pane.
    fn apply_op_to_selected(&mut self, delta: i64)
        requires
            -1 <= delta <= 1,
        ensures
            final(self).spec_selected() == spec_apply(
                old(self).spec_selected(),
                delta as int,
                old(self).spec_local_entries().len() as int,
                old(self).spec_remote_entries().len() as int,
            ),
            final(self).spec_local_dir() == old(self).spec_local_dir(),
            final(self).spec_remote_dir() == old(self).spec_remote_dir(),
            final(self).spec_local_entries() == old(self).spec_local_entries(),
            final(self).spec_remote_entries() == old(self).spec_remote_entries(),
            final(self).wf(),
    {
        proof {
            lemma_apply_wf(
                self.selected,
                delta as int,
                self.local_entries@.len() as int,
                self.remote_entries@.len() as int,
            );
        }
        match self.selected {
            SelectedFileEntryIndex::Local(i) => {
                let n = self.local_entries.len();
                if n == 0 {
                    if self.remote_entries.len() > 0 {
                        self.selected = SelectedFileEntryIndex::Remote(0);
                    } else {
                        self.selected = SelectedFileEntryIndex::Nothing;
                    }
                } else {
                    proof {
                        lemma_move_cases(i as int, delta as int, n as int);
                    }
                    let base = i % n;
                    let j = if delta == 1 {
                        if base + 1 == n {
                            0
                        } else {
                            base + 1
                        }
                    } else if delta == -1 {
                        if base == 0 {
                            n - 1
                        } else {
                            base - 1
                        }
                    } else {
                        base
                    };
                    self.selected = SelectedFileEntryIndex::Local(j);
                }
            },
            SelectedFileEntryIndex::Remote(i) => {
                let n = self.remote_entries.len();
                if n == 0 {
                    if self.local_entries.len() > 0 {
                        self.selected = SelectedFileEntryIndex::Local(0);
                    } else {
                        self.selected = SelectedFileEntryIndex::Nothing;
                    }
                } else {
                    proof {
                        lemma_move_cases(i as int, delta as int, n as int);
                    }
                    let base = i % n;
                    let j = if delta == 1 {
                        if base + 1 == n {
                            0
                        } else {
                            base + 1
                        }
                    } else if delta == -1 {
                        if base == 0 {
                            n - 1
                        } else {
                            base - 1
                        }
                    } else {
                        base
                    };
                    self.selected = SelectedFileEntryIndex::Remote(j);
                }
            },
            SelectedFileEntryIndex::Nothing => {
                if self.remote_entries.len() > 0 {
                    self.selected = SelectedFileEntryIndex::Remote(0);
                } else if self.local_entries.len() > 0 {
                    self.selected = SelectedFileEntryIndex::Local(0);
                } else {
                    self.selected = SelectedFileEntryIndex::Nothing;
                }
            },
        }
    }

    /// Move the cursor to the next entry, wrapping around at the end.
    pub fn next_selected(&mut self)
        requires
            old(self).wf(),
        ensures
            final(self).spec_selected() == spec_apply(
                old(self).spec_selected(),
                1,
                old(self).spec_local_entries().len() as int,
                old(self).spec_remote_entries().len() as int,
            ),
            final(self).spec_local_dir() == old(self).spec_local_dir(),
            final(self).spec_remote_dir() == old(self).spec_remote_dir(),
            final(self).spec_local_entries() == old(self).spec_local_entries(),
            final(self).spec_remote_entries() == old(self).spec_remote_entries(),
            final(self).wf(),
    {
        self.apply_op_to_selected(1)
    }

    /// Move the cursor to the previous entry, wrapping around at the
    /// start.
    pub fn prev_selected(&mut self)
        requires
            old(self).wf(),
        ensures
            final(self).spec_selected() == spec_apply(
                old(self).spec_selected(),
                -1,
                old(self).spec_local_entries().len() as int,
                old(self).spec_remote_entries().len() as int,
            ),
            final(self).spec_local_dir() == old(self).spec_local_dir(),
            final(self).spec_remote_dir() == old(self).spec_remote_dir(),
            final(self).spec_local_entries() == old(self).spec_local_entries(),
            final(self).spec_remote_entries() == old(self).spec_remote_entries(),
            final(self).wf(),
    {
        self.apply_op_to_selected(-1)
    }

    /// Switch the cursor to the other pane, keeping the index where the
    /// destination listing allows it.
    pub fn toggle_selected(&mut self)
        requires
            old(self).wf(),
        ensures
            final(self).spec_selected() == spec_toggle(
                old(self).spec_selected(),
                old(self).spec_local_entries().len() as int,
                old(self).spec_remote_entries().len() as int,
            ),
            final(self).spec_local_dir() == old(self).spec_local_dir(),
            final(self).spec_remote_dir() == old(self).spec_remote_dir(),
            final(self).spec_local_entries() == old(self).spec_local_entries(),
            final(self).spec_remote_entries() == old(self).spec_remote_entries(),
            final(self).wf(),
    {
        match self.selected {
            SelectedFileEntryIndex::Local(i) => {
                let nr = self.remote_entries.len();
                if nr > 0 {
                    proof {
                        vstd::arithmetic::div_mod::lemma_mod_bound(i as int, nr as int);
                    }
                    self.selected = SelectedFileEntryIndex::Remote(i % nr);
                } else if self.local_entries.len() > 0 {
                    self.selected = SelectedFileEntryIndex::Local(0);
                } else {
                    self.selected = SelectedFileEntryIndex::Nothing;
                }
            },
            SelectedFileEntryIndex::Remote(i) => {
                let nl = self.local_entries.len();
                if nl > 0 {
                    proof {
                        vstd::arithmetic::div_mod::lemma_mod_bound(i as int, nl as int);
                    }
                    self.selected = SelectedFileEntryIndex::Local(i % nl);
                } else if self.remote_entries.len() > 0 {
                    self.selected = SelectedFileEntryIndex::Remote(0);
                } else {
                    self.selected = SelectedFileEntryIndex::Nothing;
                }
            },
            SelectedFileEntryIndex::Nothing => {
                if self.remote_entries.len() > 0 {
                    self.selected = SelectedFileEntryIndex::Remote(0);
                } else if self.local_entries.len() > 0 {
                    self.selected = SelectedFileEntryIndex::Local(0);
                } else {
                    self.selected = SelectedFileEntryIndex::Nothing;
                }
            },
        }
    }

    /// Return the current local directory.
    pub fn get_local_working_path(&self) -> (r: &str)
        ensures
            r@ == self.spec_local_dir(),
    {
        self.local_directory.as_str()
    }

    /// Return the current remote directory.
    pub fn get_remote_working_path(&self) -> (r: &str)
        ensures
            r@ == self.spec_remote_dir(),
    {
        self.remote_directory.as_str()
    }

    /// Return the currently selected file entry, copied out of its
    /// listing.
    pub fn get_selected_entry(&self) -> (r: SelectedFileEntry)
        requires
            self.wf(),
        ensures
            r == match self.spec_selected() {
                SelectedFileEntryIndex::Local(i) => SelectedFileEntry::Local(
                    self.spec_local_entries()[i as int],
                ),
                SelectedFileEntryIndex::Remote(i) => SelectedFileEntry::Remote(
                    self.spec_remote_entries()[i as int],
                ),
                SelectedFileEntryIndex::Nothing => SelectedFileEntry::Nothing,
            },
    {
        match self.selected {
            SelectedFileEntryIndex::Local(i) => {
                let entry = self.local_entries[i].clone();
                SelectedFileEntry::Local(entry)
            },
            SelectedFileEntryIndex::Remote(i) => {
                let entry = self.remote_entries[i].clone();
                SelectedFileEntry::Remote(entry)
            },
            SelectedFileEntryIndex::Nothing => SelectedFileEntry::Nothing,
        }
    }

    /// The cursor's index into the local listing, when it is there.
    pub fn get_local_selected_index(&self) -> (r: Option<usize>)
        ensures
            r == match self.spec_selected() {
                SelectedFileEntryIndex::Local(i) => Option::Some(i),
                _ => Option::<usize>::None,
            },
    {
        match self.selected {
            SelectedFileEntryIndex::Local(i) => Option::Some(i),
            _ => Option::None,
        }
    }

    /// The cursor's index into the remote listing, when it is there.
    pub fn get_remote_selected_index(&self) -> (r: Option<usize>)
        ensures
            r == match self.spec_selected() {
                SelectedFileEntryIndex::Remote(i) => Option::Some(i),
                _ => Option::<usize>::None,
            },
    {
        match self.selected {
            SelectedFileEntryIndex::Remote(i) => Option::Some(i),
            _ => Option::None,
        }
    }

    /// How many entries the local listing holds.
    pub fn num_local_entries(&self) -> (r: usize)
        ensures
            r == self.spec_local_entries().len(),
    {
        self.local_entries.len()
    }

    /// How many entries the remote listing holds.
    pub fn num_remote_entries(&self) -> (r: usize)
        ensures
            r == self.spec_remote_entries().len(),
    {
        self.remote_entries.len()
    }

    /// The local entry at position `i`.
    pub fn local_entry_at(&self, i: usize) -> (r: &LocalFileEntry)
        requires
            i < self.spec_local_entries().len(),
        ensures
            *r == self.spec_local_entries()[i as int],
    {
        &self.local_entries[i]
    }

    /// The remote entry at position `i`.
    pub fn remote_entry_at(&self, i: usize) -> (r: &RemoteFileEntry)
        requires
            i < self.spec_remote_entries().len(),
        ensures
            *r == self.spec_remote_entries()[i as int],
    {
        &self.remote_entries[i]
    }

    /// Rebuild the local listing from the raw entries of the current
    /// local directory: a parent marker is put in front when the
    /// directory has a parent, hidden entries are dropped unless
    /// `keep_hidden_files` is set, the result is sorted, and the cursor
    /// is re-clamped.
    pub fn fetch_local_files(&mut self, raw_entries: Vec<LocalFileEntry>, keep_hidden_files: bool)
        ensures
            final(self).spec_local_dir() == old(self).spec_local_dir(),
            final(self).spec_remote_dir() == old(self).spec_remote_dir(),
            final(self).spec_remote_entries() == old(self).spec_remote_entries(),
            local_listing_ok(
                final(self).spec_local_entries(),
                old(self).spec_local_dir(),
                raw_entries@,
                keep_hidden_files,
            ),
            final(self).spec_selected() == spec_apply(
                old(self).spec_selected(),
                0,
                final(self).spec_local_entries().len() as int,
                final(self).spec_remote_entries().len() as int,
            ),
            final(self).wf(),
    {
        let ghost raw0 = raw_entries@;
        let mut list = raw_entries;
        let parent_opt = parent_of(self.local_directory.as_str());
        match parent_opt {
            Option::Some(p) => {
                let ghost pe = LocalFileEntry::Parent(p);
                list.insert(0, LocalFileEntry::Parent(p));
                proof {
                    assert(list@ =~= seq![pe] + raw0);
                }
            },
            Option::None => {},
        }
        retain_visible(&mut list, keep_hidden_files);
        sort_entries(&mut list);
        self.local_entries = list;
        self.apply_op_to_selected(0);
    }

    /// Rebuild the remote listing from the raw entries of the current
    /// remote directory, exactly as `fetch_local_files` does for the
    /// local one.
    pub fn fetch_remote_files(&mut self, raw_entries: Vec<RemoteFileEntry>, keep_hidden_files: bool)
        ensures
            final(self).spec_local_dir() == old(self).spec_local_dir(),
            final(self).spec_remote_dir() == old(self).spec_remote_dir(),
            final(self).spec_local_entries() == old(self).spec_local_entries(),
            remote_listing_ok(
                final(self).spec_remote_entries(),
                old(self).spec_remote_dir(),
                raw_entries@,
                keep_hidden_files,
            ),
            final(self).spec_selected() == spec_apply(
                old(self).spec_selected(),
                0,
                final(self).spec_local_entries().len() as int,
                final(self).spec_remote_entries().len() as int,
            ),
            final(self).wf(),
    {
        let ghost raw0 = raw_entries@;
        let mut list = raw_entries;
        let parent_opt = parent_of(self.remote_directory.as_str());
        match parent_opt {
            Option::Some(p) => {
                let ghost pe = RemoteFileEntry::Parent(p);
                list.insert(0, RemoteFileEntry::Parent(p));
                proof {
                    assert(list@ =~= seq![pe] + raw0);
                }
            },
            Option::None => {},
        }
        retain_visible(&mut list, keep_hidden_files);
        sort_entries(&mut list);
        self.remote_entries = list;
        self.apply_op_to_selected(0);
    }

    /// Set the current local directory and rebuild the local listing
    /// from its raw entries.
    pub fn set_local_working_path(
        &mut self,
        path: String,
        raw_entries: Vec<LocalFileEntry>,
        keep_hidden_files: bool,
    )
        ensures
            final(self).spec_local_dir() == path@,
            final(self).spec_remote_dir() == old(self).spec_remote_dir(),
            final(self).spec_remote_entries() == old(self).spec_remote_entries(),
            local_listing_ok(
                final(self).spec_local_entries(),
                path@,
                raw_entries@,
                keep_hidden_files,
            ),
            final(self).spec_selected() == spec_apply(
                old(self).spec_selected(),
                0,
                final(self).spec_local_entries().len() as int,
                final(self).spec_remote_entries().len() as int,
            ),
            final(self).wf(),
    {
        self.local_directory = path;
        self.fetch_local_files(raw_entries, keep_hidden_files);
    }

    /// Set the current remote directory and rebuild the remote listing
    /// from its raw entries.
    pub fn set_remote_working_path(
        &mut self,
        path: String,
        raw_entries: Vec<RemoteFileEntry>,
        keep_hidden_files: bool,
    )
        ensures
            final(self).spec_local_dir() == old(self).spec_local_dir(),
            final(self).spec_remote_dir() == path@,
            final(self).spec_local_entries() == old(self).spec_local_entries(),
            remote_listing_ok(
                final(self).spec_remote_entries(),
                path@,
                raw_entries@,
                keep_hidden_files,
            ),
            final(self).spec_selected() == spec_apply(
                old(self).spec_selected(),
                0,
                final(self).spec_local_entries().len() as int,
                final(self).spec_remote_entries().len() as int,
            ),
            final(self).wf(),
    {
        self.remote_directory = path;
        self.fetch_remote_files(raw_entries, keep_hidden_files);
    }
}

/// Compare two strings for character-for-character equality.
pub fn str_eq(a: &str, b: &str) -> (r: bool)
    ensures
        r == (a@ == b@),
{
    let na = a.unicode_len();
    let nb = b.unicode_len();
    if na != nb {
        return false;
    }
    let mut i: usize = 0;
    while i < na
        invariant
            0 <= i <= na,
            na == a@.len(),
            na == b@.len(),
            forall|t: int| 0 <= t < i ==> a@[t] == b@[t],
        decreases na - i,
    {
        if a.get_char(i) != b.get_char(i) {
            return false;
        }
        i = i + 1;
    }
    proof {
        assert(a@ =~= b@);
    }
    true
}

} // verus!
