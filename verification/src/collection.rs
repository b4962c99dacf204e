//! A set of opened archives presented as one virtual file system: names are
//! normalized, and later archives take precedence over earlier ones.

use vstd::prelude::*;

use crate::errors::Error;
use crate::mpq::{block_read_err, file_read, open_ok, opened_from, Archive};

verus! {

/// The normalized form of one name byte: ASCII letters are lowercased and a
/// backslash counts as a forward slash.
pub open spec fn spec_norm_byte(b: u8) -> u8 {
    if b == 0x5C {
        0x2F
    } else if 0x41 <= b && b <= 0x5A {
        (b + 0x20) as u8
    } else {
        b
    }
}

/// The normalized form of a logical name.
pub open spec fn normalize(name: Seq<u8>) -> Seq<u8> {
    name.map_values(|b: u8| spec_norm_byte(b))
}

/// Reading a normalized name resolves exactly as reading the name itself.
pub proof fn lemma_spec_read_normalize(c: MpqCollection, name: Seq<u8>)
    ensures
        c.spec_read(normalize(name)) == c.spec_read(name),
{
    lemma_normalize_idempotent(name);
}

/// Normalizing twice changes nothing: the normal form is a fixed point.
pub proof fn lemma_normalize_idempotent(name: Seq<u8>)
    ensures
        normalize(normalize(name)) == normalize(name),
{
    assert(normalize(normalize(name)) =~= normalize(name)) by {
        assert forall|i: int| 0 <= i < name.len() implies spec_norm_byte(
            #[trigger] normalize(name)[i],
        ) == spec_norm_byte(name[i]) by {
            assert(normalize(name)[i] == spec_norm_byte(name[i]));
        }
    }
}

/// Normalizes a logical name: lowercase ASCII, forward slashes.
pub fn format_file_name(name: &[u8]) -> (r: Vec<u8>)
    ensures
        r@ == normalize(name@),
{
    let mut out: Vec<u8> = Vec::new();
    let mut i: usize = 0;
    while i < name.len()
        invariant
            i <= name@.len(),
            out@.len() == i,
            forall|j: int| 0 <= j < i ==> out@[j] == spec_norm_byte(name@[j]),
        decreases name@.len() - i,
    {
        let b = name[i];
        if b == 0x5C {
            out.push(0x2F);
        } else if b >= 0x41 && b <= 0x5A {
            out.push(b + 0x20);
        } else {
            out.push(b);
        }
        i = i + 1;
    }
    proof {
        assert(out@ =~= normalize(name@));
    }
    out
}

/// Copies a byte string.
fn copy_bytes(v: &Vec<u8>) -> (r: Vec<u8>)
    ensures
        r@ == v@,
{
    vstd::slice::slice_to_vec(v.as_slice())
}

/// Whether two byte strings hold the same bytes.
pub(crate) fn bytes_eq(a: &[u8], b: &[u8]) -> (r: bool)
    ensures
        r == (a@ == b@),
{
    if a.len() != b.len() {
        proof {
            assert(a@.len() != b@.len());
        }
        return false;
    }
    let mut i: usize = 0;
    while i < a.len()
        invariant
            a@.len() == b@.len(),
            i <= a@.len(),
            forall|j: int| 0 <= j < i ==> a@[j] == b@[j],
        decreases a@.len() - i,
    {
        if a[i] != b[i] {
            return false;
        }
        i = i + 1;
    }
    proof {
        assert(a@ =~= b@);
    }
    true
}

/// One name known to the collection: its normalized form, the archive that
/// provides it, and the name as that archive's listfile spells it.
pub struct NameBinding {
    /// The normalized name, the map's key.
    pub norm: Vec<u8>,
    /// Index of the providing archive in collection order.
    pub archive: usize,
    /// The name as stored in that archive's listfile.
    pub original: Vec<u8>,
}

/// Whether a list of names contains `n`.
pub open spec fn contains_name(list: Seq<Vec<u8>>, n: Seq<u8>) -> bool {
    exists|i: int| 0 <= i < list.len() && (#[trigger] list[i])@ == n
}

/// Whether some binding carries the normalized name `n`.
pub open spec fn binds_name(bs: Seq<NameBinding>, n: Seq<u8>) -> bool {
    exists|j: int| 0 <= j < bs.len() && (#[trigger] bs[j]).norm@ == n
}

/// The last binding whose normalized name is `norm`: later entries override
/// earlier ones.
pub open spec fn last_match(bs: Seq<NameBinding>, norm: Seq<u8>) -> Option<int>
    decreases bs.len(),
{
    if bs.len() == 0 {
        None
    } else if bs.last().norm@ == norm {
        Some(bs.len() - 1)
    } else {
        last_match(bs.drop_last(), norm)
    }
}

/// Bindings are listed archive by archive, in collection order.
pub open spec fn sorted_by_archive(bs: Seq<NameBinding>) -> bool {
    forall|i: int, j: int| 0 <= i <= j < bs.len() ==> #[trigger] bs[i].archive <= #[trigger] bs[j].archive
}

proof fn lemma_last_match_in_range(bs: Seq<NameBinding>, norm: Seq<u8>)
    ensures
        (match last_match(bs, norm) {
            Some(m) => 0 <= m < bs.len() && bs[m].norm@ == norm,
            None => true,
        }),
    decreases bs.len(),
{
    if bs.len() > 0 && !(bs.last().norm@ == norm) {
        lemma_last_match_in_range(bs.drop_last(), norm);
    }
}

proof fn lemma_last_match_is_last(bs: Seq<NameBinding>, norm: Seq<u8>, k: int)
    requires
        0 <= k < bs.len(),
        bs[k].norm@ == norm,
    ensures
        (last_match(bs, norm) matches Some(m) && k <= m < bs.len()),
    decreases bs.len(),
{
    if bs.last().norm@ == norm {
    } else {
        assert(k < bs.len() - 1);
        lemma_last_match_is_last(bs.drop_last(), norm, k);
    }
}

/// Later archives override earlier ones: the binding a name resolves to
/// comes from an archive no earlier than any other archive that lists the
/// same normalized name.
pub proof fn lemma_later_archive_wins(bs: Seq<NameBinding>, norm: Seq<u8>, k: int)
    requires
        sorted_by_archive(bs),
        0 <= k < bs.len(),
        bs[k].norm@ == norm,
    ensures
        (last_match(bs, norm) matches Some(m) && 0 <= m < bs.len() && bs[m].norm@ == norm
            && bs[k].archive <= bs[m].archive),
{
    lemma_last_match_in_range(bs, norm);
    lemma_last_match_is_last(bs, norm, k);
}

/// The number of listfile entries contributed by the first `k` archives.
pub open spec fn listfile_total(archives: Seq<Archive>, k: int) -> int
    decreases k,
{
    if k <= 0 {
        0
    } else {
        listfile_total(archives, k - 1) + archives[k - 1].spec_listfile().len()
    }
}

proof fn lemma_listfile_total_push(archives: Seq<Archive>, a: Archive, k: int)
    requires
        0 <= k <= archives.len(),
    ensures
        listfile_total(archives.push(a), k) == listfile_total(archives, k),
    decreases k,
{
    if k > 0 {
        assert(archives.push(a)[k - 1] == archives[k - 1]);
        lemma_listfile_total_push(archives, a, k - 1);
    }
}

proof fn lemma_listfile_total_nonneg(archives: Seq<Archive>, k: int)
    requires
        0 <= k <= archives.len(),
    ensures
        listfile_total(archives, k) >= 0,
    decreases k,
{
    if k > 0 {
        lemma_listfile_total_nonneg(archives, k - 1);
    }
}

proof fn lemma_listfile_total_mono(archives: Seq<Archive>, a: int, k: int)
    requires
        0 <= a < k <= archives.len(),
    ensures
        listfile_total(archives, a) + archives[a].spec_listfile().len() <= listfile_total(
            archives,
            k,
        ),
    decreases k,
{
    if a + 1 < k {
        lemma_listfile_total_mono(archives, a, k - 1);
    }
}

/// Appending one archive's listfile entries to a matching name map yields
/// a map matching the archives with that archive appended.
proof fn lemma_bindings_extend(
    base: Seq<NameBinding>,
    bs: Seq<NameBinding>,
    arch_old: Seq<Archive>,
    archive: Archive,
)
    requires
        bindings_match(base, arch_old),
        bs.len() == base.len() + archive.spec_listfile().len(),
        forall|x: int| 0 <= x < base.len() ==> #[trigger] bs[x] == base[x],
        forall|j: int|
            0 <= j < archive.spec_listfile().len() ==> (#[trigger] bs[base.len() + j]).archive
                == arch_old.len() && bs[base.len() + j].original@ == archive.spec_listfile()[j]
                && bs[base.len() + j].norm@ == normalize(archive.spec_listfile()[j]),
    ensures
        bindings_match(bs, arch_old.push(archive)),
{
    let archives = arch_old.push(archive);
    lemma_listfile_total_push(arch_old, archive, arch_old.len() as int);
    assert(archives[arch_old.len() as int] == archive);
    assert(listfile_total(archives, archives.len() as int) == listfile_total(
        archives,
        arch_old.len() as int,
    ) + archive.spec_listfile().len());
    assert(bs.len() == listfile_total(archives, archives.len() as int));
    assert forall|a: int, j: int|
        0 <= a < archives.len() && 0 <= j
            < archives[a].spec_listfile().len() implies #[trigger] binding_at_ok(
        bs,
        archives,
        a,
        j,
    ) by {
        lemma_listfile_total_push(arch_old, archive, a);
        if a < arch_old.len() {
            lemma_listfile_total_nonneg(arch_old, a);
            assert(archives[a] == arch_old[a]);
            assert(archives[a].spec_listfile() == arch_old[a].spec_listfile());
            assert(j < arch_old[a].spec_listfile().len());
            lemma_listfile_total_mono(arch_old, a, arch_old.len() as int);
            assert(0 <= listfile_total(arch_old, a) + j < base.len());
            let t = listfile_total(arch_old, a) + j;
            let olf = arch_old[a].spec_listfile()[j];
            assert(binding_at_ok(base, arch_old, a, j));
            assert(bs[t] == base[t]);
            assert(listfile_total(archives, a) == listfile_total(arch_old, a));
        } else {
            lemma_listfile_total_nonneg(arch_old, arch_old.len() as int);
            assert(a == arch_old.len());
            assert(archives[a] == archive);
            assert(archives[a].spec_listfile() == archive.spec_listfile());
            assert(listfile_total(archives, a) == base.len());
            assert((bs[base.len() + j]).archive == a);
            assert(bs[base.len() + j].original@ == (archive.spec_listfile()[j]));
            assert(bs[base.len() + j].norm@ == normalize(archive.spec_listfile()[j]));
        }
    }
    assert(bindings_match(bs, archives));
}

/// The binding for entry `j` of archive `a` is that listfile entry: its
/// normalized name, the archive's index, and the name as spelled there.
pub open spec fn binding_at_ok(
    bs: Seq<NameBinding>,
    archives: Seq<Archive>,
    a: int,
    j: int,
) -> bool {
    &&& bs[listfile_total(archives, a) + j].archive == a
    &&& bs[listfile_total(archives, a) + j].original@ == archives[a].spec_listfile()[j]
    &&& bs[listfile_total(archives, a) + j].norm@ == normalize(archives[a].spec_listfile()[j])
}

/// The name map is, archive by archive and in listfile order, exactly one
/// binding per listfile entry: the entry's normalized name, the archive's
/// index, and the name as the listfile spells it.
pub open spec fn bindings_match(bs: Seq<NameBinding>, archives: Seq<Archive>) -> bool {
    &&& bs.len() == listfile_total(archives, archives.len() as int)
    &&& (forall|a: int, j: int|
        0 <= a < archives.len() && 0 <= j < archives[a].spec_listfile().len()
            ==> #[trigger] binding_at_ok(bs, archives, a, j))
}

/// What loading a collection over `datas` establishes: one archive per
/// buffer, in order, each opened from its bytes, and the name map built
/// from their listfiles.
pub open spec fn loaded_from(c: MpqCollection, datas: Seq<Vec<u8>>) -> bool {
    &&& c.wf()
    &&& c.spec_archives().len() == datas.len()
    &&& (forall|i: int|
        0 <= i < datas.len() ==> opened_from(#[trigger] c.spec_archives()[i], datas[i]@))
    &&& bindings_match(c.spec_bindings(), c.spec_archives())
}

/// An ordered set of archives and the name map built from their listfiles.
pub struct MpqCollection {
    archives: Vec<Archive>,
    bindings: Vec<NameBinding>,
}

impl MpqCollection {
    /// The archives, in collection order.
    pub closed spec fn spec_archives(&self) -> Seq<Archive> {
        self.archives@
    }

    /// The name map: one binding per listfile entry, in collection order.
    pub closed spec fn spec_bindings(&self) -> Seq<NameBinding> {
        self.bindings@
    }

    /// Every archive is well-formed, every binding points at an archive,
    /// carries a normalized key consistent with its original name, and the
    /// bindings follow collection order.
    pub closed spec fn wf(&self) -> bool {
        &&& (forall|i: int| 0 <= i < self.archives@.len() ==> (#[trigger] self.archives@[i]).wf())
        &&& (forall|i: int|
            0 <= i < self.bindings@.len() ==> (#[trigger] self.bindings@[i]).archive
                < self.archives@.len())
        &&& (forall|i: int|
            0 <= i < self.bindings@.len() ==> (#[trigger] self.bindings@[i]).norm@ == normalize(
                self.bindings@[i].original@,
            ))
        &&& sorted_by_archive(self.bindings@)
    }

    /// What a read of `name` returns: the payload of the original name in
    /// the archive that the last matching binding names.
    pub open spec fn spec_read(&self, name: Seq<u8>) -> Option<Seq<u8>> {
        match last_match(self.spec_bindings(), normalize(name)) {
            Some(m) => {
                let b = self.spec_bindings()[m];
                if b.archive < self.spec_archives().len() {
                    self.spec_archives()[b.archive as int].spec_read(b.original@)
                } else {
                    None
                }
            },
            None => None,
        }
    }

    /// Opens every archive in order and builds the name map from their
    /// listfiles, one binding per listfile entry; a later archive's
    /// entries override earlier ones.
    #[verifier::rlimit(100)]
    #[verifier::spinoff_prover]
    pub fn load(archive_data: Vec<Vec<u8>>) -> (r: Result<MpqCollection, Error>)
        ensures
            (r is Ok <==> (forall|i: int|
                0 <= i < archive_data@.len() ==> open_ok(#[trigger] archive_data@[i]@))),
            (r matches Ok(c) ==> loaded_from(c, archive_data@)),
    {
        let mut archives: Vec<Archive> = Vec::new();
        let mut bindings: Vec<NameBinding> = Vec::new();
        let n_arch = archive_data.len();
        let mut idx: usize = 0;
        while idx < n_arch
            invariant
                n_arch == archive_data@.len(),
                idx <= n_arch,
                idx == archives@.len(),
                forall|i: int| 0 <= i < idx ==> open_ok(#[trigger] archive_data@[i]@),
                forall|i: int|
                    0 <= i < idx ==> opened_from(#[trigger] archives@[i], archive_data@[i]@),
                forall|i: int| 0 <= i < archives@.len() ==> (#[trigger] archives@[i]).wf(),
                forall|i: int|
                    0 <= i < bindings@.len() ==> (#[trigger] bindings@[i]).archive
                        < archives@.len(),
                forall|i: int|
                    0 <= i < bindings@.len() ==> (#[trigger] bindings@[i]).norm@ == normalize(
                        bindings@[i].original@,
                    ),
                sorted_by_archive(bindings@),
                bindings_match(bindings@, archives@),
            decreases n_arch - idx,
        {
            let data = copy_bytes(&archive_data[idx]);
            let archive = match Archive::open(data) {
                Ok(a) => a,
                Err(e) => {
                    proof {
                        assert(!open_ok(archive_data@[idx as int]@));
                    }
                    return Err(e)
                },
            };
            let ghost base = bindings@;
            proof {
                assert(base.len() == listfile_total(archives@, idx as int));
            }
            let names = archive.list();
            let mut k: usize = 0;
            while k < names.len()
                invariant
                    idx == archives@.len(),
                    k <= names@.len(),
                    names@.map_values(|v: Vec<u8>| v@) == archive.spec_listfile(),
                    bindings@.len() == base.len() + k,
                    forall|x: int| 0 <= x < base.len() ==> #[trigger] bindings@[x] == base[x],
                    forall|j: int|
                        0 <= j < k ==> (#[trigger] bindings@[base.len() + j]).archive == idx
                            && bindings@[base.len() + j].original@ == archive.spec_listfile()[j]
                            && bindings@[base.len() + j].norm@ == normalize(
                            archive.spec_listfile()[j],
                        ),
                    forall|i: int|
                        0 <= i < bindings@.len() ==> (#[trigger] bindings@[i]).archive <= idx,
                    forall|i: int|
                        0 <= i < bindings@.len() ==> (#[trigger] bindings@[i]).norm@ == normalize(
                            bindings@[i].original@,
                        ),
                    sorted_by_archive(bindings@),
                decreases names@.len() - k,
            {
                let name: &Vec<u8> = &names[k];
                let norm = format_file_name(name.as_slice());
                let original = copy_bytes(name);
                proof {
                    assert(names@.map_values(|v: Vec<u8>| v@)[k as int] == names@[k as int]@);
                }
                bindings.push(NameBinding { norm, archive: idx, original });
                k = k + 1;
            }
            let ghost arch_old = archives@;
            archives.push(archive);
            proof {
                assert(archives@ == arch_old.push(archive));
                lemma_bindings_extend(base, bindings@, arch_old, archive);
            }
            idx = idx + 1;
        }
        Ok(MpqCollection { archives, bindings })
    }

    /// The normalized names this collection knows: each listed name is
    /// bound, each bound name is listed, and no name is listed twice.
    pub fn list(&self) -> (r: Vec<Vec<u8>>)
        ensures
            (forall|i: int|
                0 <= i < r@.len() ==> binds_name(self.spec_bindings(), (#[trigger] r@[i])@)),
            (forall|j: int|
                0 <= j < self.spec_bindings().len() ==> contains_name(
                    r@,
                    (#[trigger] self.spec_bindings()[j]).norm@,
                )),
            (forall|i: int, j: int| 0 <= i < j < r@.len() ==> (#[trigger] r@[i])@ != (#[trigger] r@[j])@),
    {
        let mut out: Vec<Vec<u8>> = Vec::new();
        let mut i: usize = 0;
        while i < self.bindings.len()
            invariant
                i <= self.bindings@.len(),
                forall|x: int|
                    0 <= x < out@.len() ==> binds_name(self.spec_bindings(), (#[trigger] out@[x])@),
                forall|j: int|
                    0 <= j < i ==> contains_name(out@, (#[trigger] self.bindings@[j]).norm@),
                forall|x: int, y: int|
                    0 <= x < y < out@.len() ==> (#[trigger] out@[x])@ != (#[trigger] out@[y])@,
            decreases self.bindings@.len() - i,
        {
            let norm: &Vec<u8> = &self.bindings[i].norm;
            let mut seen = false;
            let mut x: usize = 0;
            while x < out.len()
                invariant
                    x <= out@.len(),
                    seen == (exists|y: int| 0 <= y < x && (#[trigger] out@[y])@ == norm@),
                decreases out@.len() - x,
            {
                if bytes_eq(out[x].as_slice(), norm.as_slice()) {
                    seen = true;
                    proof {
                        assert((out@[x as int])@ == norm@);
                    }
                }
                x = x + 1;
            }
            if !seen {
                let ghost old_out = out@;
                out.push(norm.clone());
                proof {
                    assert((out@[out@.len() - 1])@ == norm@);
                    assert(self.bindings@[i as int].norm@ == norm@);
                    assert forall|j: int| 0 <= j < i implies contains_name(
                        out@,
                        (#[trigger] self.bindings@[j]).norm@,
                    ) by {
                        let x = choose|x: int|
                            0 <= x < old_out.len() && (#[trigger] old_out[x])@
                                == self.bindings@[j].norm@;
                        assert((out@[x])@ == self.bindings@[j].norm@);
                    }
                }
            } else {
                proof {
                    assert(contains_name(out@, norm@));
                }
            }
            proof {
                assert(binds_name(self.spec_bindings(), norm@));
                assert(contains_name(out@, norm@));
            }
            i = i + 1;
        }
        out
    }

    /// Reads a name: normalizes it, resolves the last matching binding, and
    /// forwards the original listfile spelling to that archive. An unknown
    /// name is reported under its normalized form, the map's own key.
    #[verifier::rlimit(100)]
    #[verifier::spinoff_prover]
    pub fn read_file(&self, name: &[u8]) -> (r: Result<Vec<u8>, Error>)
        requires
            self.wf(),
        ensures
            (r matches Ok(v) ==> self.spec_read(name@) == Some(v@)),
            (r is Ok <==> self.spec_read(name@) is Some),
            (last_match(self.spec_bindings(), normalize(name@)) is None ==> (r matches Err(e)
                && e matches Error::NotFound(n2) && n2@ == normalize(name@))),
            (match last_match(self.spec_bindings(), normalize(name@)) {
                Some(m) => {
                    let bnd = self.spec_bindings()[m];
                    let arch = self.spec_archives()[bnd.archive as int];
                    &&& (arch.spec_lookup(bnd.original@) is None ==> (r matches Err(e)
                        && e matches Error::NotFound(n2) && n2@ == bnd.original@))
                    &&& (match arch.spec_lookup(bnd.original@) {
                        Some(blk) => file_read(
                            arch.spec_data(),
                            arch.spec_sector_size(),
                            blk,
                        ) is None ==> (r matches Err(e) && e == block_read_err(
                            arch.spec_data(),
                            arch.spec_sector_size(),
                            blk,
                        )),
                        None => true,
                    })
                },
                None => true,
            }),
    {
        let norm = format_file_name(name);
        match self.find_last(norm.as_slice()) {
            Some(ix) => {
                let b: &NameBinding = &self.bindings[ix];
                let archive: &Archive = &self.archives[b.archive];
                let res = archive.read_file(b.original.as_slice());
                proof {
                    assert(self.spec_bindings()[ix as int] == self.bindings@[ix as int]);
                    assert(*archive == self.spec_archives()[
                        self.spec_bindings()[ix as int].archive as int
                    ]);
                }
                res
            },
            None => Err(Error::NotFound(norm)),
        }
    }

    /// Finds the last binding whose normalized name is `norm`.
    fn find_last(&self, norm: &[u8]) -> (r: Option<usize>)
        ensures
            (match r {
                Some(ix) => ix < self.spec_bindings().len() && last_match(
                    self.spec_bindings(),
                    norm@,
                ) == Some(ix as int),
                None => last_match(self.spec_bindings(), norm@) is None,
            }),
    {
        let n = self.bindings.len();
        let mut i: usize = n;
        proof {
            assert(self.spec_bindings().take(n as int) =~= self.spec_bindings());
        }
        while i > 0
            invariant
                n == self.spec_bindings().len(),
                i <= n,
                last_match(self.spec_bindings(), norm@) == last_match(
                    self.spec_bindings().take(i as int),
                    norm@,
                ),
            decreases i,
        {
            let b: &NameBinding = &self.bindings[i - 1];
            proof {
                assert(self.spec_bindings().take(i as int).drop_last() =~= self.spec_bindings()
                    .take(i - 1));
                assert(self.spec_bindings().take(i as int).last() == self.spec_bindings()[i - 1]);
            }
            if bytes_eq(b.norm.as_slice(), norm) {
                proof {
                    assert(last_match(self.spec_bindings(), norm@) == Some(i - 1));
                }
                return Some(i - 1);
            }
            i = i - 1;
        }
        proof {
            assert(self.spec_bindings().take(0) =~= Seq::<NameBinding>::empty());
        }
        None
    }
}

} // verus!
