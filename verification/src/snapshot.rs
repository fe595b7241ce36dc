//! The persisted registry snapshot: one byte string holding every record's
//! id, counters and alias. Pending URLs are transient and stay out. A saved
//! snapshot parses back to the same records; anything malformed is rejected,
//! never misread.
use vstd::prelude::*;
use crate::db::{DB, Downloads, UserData, UserDataV, RegView, wf_v};
use crate::hex::{
    hex16_seq,
    hex16_ok,
    hex16_val,
    lemma_hex16_roundtrip,
    push_hex16,
    read_hex16,
};

verus! {

/// The four magic bytes opening every snapshot.
pub open spec fn spec_magic() -> Seq<u8> {
    seq![82u8, 69u8, 71u8, 49u8]
}

/// The encoding of one record: id, video count, audio count and alias
/// length in hex, then the alias bytes. The pending URL is dropped.
pub open spec fn enc_rec(r: (u64, UserDataV)) -> Seq<u8> {
    hex16_seq(r.0) + hex16_seq(r.1.downloads.videos) + hex16_seq(r.1.downloads.audios)
        + hex16_seq(r.1.alias.len() as u64) + r.1.alias
}

/// The records of a registry, encoded in order.
pub open spec fn enc_records(v: RegView) -> Seq<u8>
    decreases v.len(),
{
    if v.len() == 0 {
        Seq::empty()
    } else {
        enc_rec(v[0]) + enc_records(v.drop_first())
    }
}

/// The full snapshot: magic, record count in hex, then the records.
pub open spec fn spec_snapshot(v: RegView) -> Seq<u8> {
    spec_magic() + hex16_seq(v.len() as u64) + enc_records(v)
}

/// A registry with every pending slot cleared, as a parsed snapshot has it.
pub open spec fn v_strip(v: RegView) -> RegView {
    v.map_values(|p: (u64, UserDataV)| (p.0, UserDataV { url: None, ..p.1 }))
}

/// One record read at `pos`: its value and the following position.
pub open spec fn sp_parse_rec(b: Seq<u8>, pos: int) -> Option<((u64, UserDataV), int)> {
    if pos + 64 <= b.len() && hex16_ok(b.subrange(pos, pos + 16)) && hex16_ok(
        b.subrange(pos + 16, pos + 32),
    ) && hex16_ok(b.subrange(pos + 32, pos + 48)) && hex16_ok(b.subrange(pos + 48, pos + 64)) {
        let id = hex16_val(b.subrange(pos, pos + 16));
        let vids = hex16_val(b.subrange(pos + 16, pos + 32));
        let auds = hex16_val(b.subrange(pos + 32, pos + 48));
        let alen = hex16_val(b.subrange(pos + 48, pos + 64)) as int;
        if pos + 64 + alen <= b.len() {
            Some(
                (
                    (id, UserDataV {
                        alias: b.subrange(pos + 64, pos + 64 + alen),
                        downloads: Downloads { videos: vids, audios: auds },
                        url: None,
                    }),
                    pos + 64 + alen,
                ),
            )
        } else {
            None
        }
    } else {
        None
    }
}

/// `n` records read from `pos`: their values and the following position.
pub open spec fn sp_parse_recs(b: Seq<u8>, pos: int, n: nat) -> Option<(RegView, int)>
    decreases n,
{
    if n == 0 {
        Some((Seq::empty(), pos))
    } else {
        match sp_parse_rec(b, pos) {
            None => None,
            Some((r, p2)) => match sp_parse_recs(b, p2, (n - 1) as nat) {
                None => None,
                Some((rest, p3)) => Some((seq![r] + rest, p3)),
            },
        }
    }
}

/// What a byte string parses to: the registry it is the snapshot of, if it
/// is one — headed by the magic and the count, consumed exactly, and holding
/// no id twice.
pub open spec fn spec_parse_snapshot(b: Seq<u8>) -> Option<RegView> {
    if b.len() >= 20 && b.subrange(0, 4) == spec_magic() && hex16_ok(b.subrange(4, 20)) {
        match sp_parse_recs(b, 20, hex16_val(b.subrange(4, 20)) as nat) {
            Some((v, p)) => if p == b.len() && wf_v(v) {
                Some(v)
            } else {
                None
            },
            None => None,
        }
    } else {
        None
    }
}

/// Appends a copy of `b` to `out`.
pub fn push_bytes(out: &mut Vec<u8>, b: &Vec<u8>)
    ensures
        final(out)@ == old(out)@ + b@,
{
    let blen = b.len();
    let mut j: usize = 0;
    while j < blen
        invariant
            blen == b@.len(),
            j <= blen,
            out@ == old(out)@ + b@.subrange(0, j as int),
        decreases blen - j,
    {
        out.push(b[j]);
        proof {
            assert(b@.subrange(0, j + 1) =~= b@.subrange(0, j as int).push(b@[j as int]));
            assert(out@ =~= old(out)@ + b@.subrange(0, j + 1));
        }
        j += 1;
    }
    proof {
        assert(b@.subrange(0, blen as int) =~= b@);
    }
}

/// Reads `len` bytes at `pos`.
fn read_bytes(b: &Vec<u8>, pos: usize, len: usize) -> (r: Vec<u8>)
    requires
        pos + len <= b@.len(),
    ensures
        r@ == b@.subrange(pos as int, pos as int + len as int),
{
    let blen = b.len();
    let mut out: Vec<u8> = Vec::new();
    let mut j: usize = 0;
    while j < len
        invariant
            blen == b@.len(),
            pos + len <= blen,
            j <= len,
            out@.len() == j,
            forall|k: int| 0 <= k < j ==> out@[k] == b@[pos + k],
        decreases len - j,
    {
        out.push(b[pos + j]);
        j += 1;
    }
    proof {
        assert(out@ =~= b@.subrange(pos as int, pos as int + len as int));
    }
    out
}

/// Encoding one more record extends the encoding of the records before it.
proof fn lemma_enc_records_snoc(v: RegView, i: int)
    requires
        0 <= i < v.len(),
    ensures
        enc_records(v.take(i + 1)) == enc_records(v.take(i)) + enc_rec(v[i]),
    decreases i,
{
    if i == 0 {
        let t1 = v.take(1);
        assert(t1.len() == 1);
        assert(t1[0] == v[0]);
        assert(t1.drop_first() =~= Seq::<(u64, UserDataV)>::empty());
        assert(enc_records(t1) == enc_rec(t1[0]) + enc_records(t1.drop_first()));
        assert(enc_records(t1.drop_first()) == Seq::<u8>::empty());
        assert(enc_rec(v[0]) + Seq::<u8>::empty() =~= enc_rec(v[0]));
        assert(v.take(0) =~= Seq::<(u64, UserDataV)>::empty());
        assert(enc_records(v.take(0)) + enc_rec(v[0]) =~= enc_rec(v[0]));
    } else {
        let w = v.drop_first();
        lemma_enc_records_snoc(w, i - 1);
        assert(v.take(i + 1).len() == i + 1);
        assert(v.take(i + 1)[0] == v[0]);
        assert(v.take(i + 1).drop_first() =~= w.take(i));
        assert(enc_records(v.take(i + 1)) == enc_rec(v[0]) + enc_records(w.take(i)));
        assert(v.take(i).len() == i);
        assert(v.take(i)[0] == v[0]);
        assert(v.take(i).drop_first() =~= w.take(i - 1));
        assert(enc_records(v.take(i)) == enc_rec(v[0]) + enc_records(w.take(i - 1)));
        assert(w[i - 1] == v[i]);
        assert(enc_records(w.take(i)) == enc_records(w.take(i - 1)) + enc_rec(v[i]));
        assert((enc_rec(v[0]) + enc_records(w.take(i - 1))) + enc_rec(v[i]) =~= enc_rec(v[0]) + (
        enc_records(w.take(i - 1)) + enc_rec(v[i])));
    }
}

/// Serializes the registry into one snapshot byte string.
pub fn save_snapshot(db: &DB) -> (r: Vec<u8>)
    ensures
        r@ == spec_snapshot(db@),
{
    let count = db.users.len();
    let mut out: Vec<u8> = Vec::new();
    out.push(82);
    out.push(69);
    out.push(71);
    out.push(49);
    push_hex16(&mut out, count as u64);
    proof {
        assert(db@.len() == db.users@.len());
        assert(db@.take(0) =~= Seq::<(u64, UserDataV)>::empty());
        assert(out@ =~= spec_magic() + hex16_seq(db@.len() as u64) + enc_records(db@.take(0)));
    }
    let mut i: usize = 0;
    while i < count
        invariant
            count == db.users@.len(),
            db@.len() == db.users@.len(),
            i <= count,
            out@ == spec_magic() + hex16_seq(db@.len() as u64) + enc_records(db@.take(i as int)),
        decreases count - i,
    {
        push_hex16(&mut out, db.users[i].0);
        push_hex16(&mut out, db.users[i].1.downloads.videos);
        push_hex16(&mut out, db.users[i].1.downloads.audios);
        push_hex16(&mut out, db.users[i].1.alias.len() as u64);
        push_bytes(&mut out, &db.users[i].1.alias);
        proof {
            lemma_enc_records_snoc(db@, i as int);
            assert(db@[i as int].1.alias == db.users@[i as int].1.alias@);
            assert(enc_rec(db@[i as int]) == hex16_seq(db@[i as int].0) + hex16_seq(
                db@[i as int].1.downloads.videos,
            ) + hex16_seq(db@[i as int].1.downloads.audios) + hex16_seq(
                db@[i as int].1.alias.len() as u64,
            ) + db@[i as int].1.alias);
            assert(out@ =~= spec_magic() + hex16_seq(db@.len() as u64) + enc_records(
                db@.take(i + 1),
            ));
        }
        i += 1;
    }
    proof {
        assert(db@.take(count as int) =~= db@);
    }
    out
}

/// The view of partially parsed records.
pub open spec fn recs_view(u: Seq<(u64, UserData)>) -> RegView {
    u.map_values(|p: (u64, UserData)| (p.0, p.1@))
}

/// `o` with `pre` prepended to its records.
pub open spec fn sp_prepend(pre: RegView, o: Option<(RegView, int)>) -> Option<(RegView, int)> {
    match o {
        None => None,
        Some((rest, p)) => Some((pre + rest, p)),
    }
}

/// Parses a snapshot byte string back into a registry, every pending slot
/// empty; yields nothing on any malformed input (wrong magic, bad digits,
/// truncation, trailing bytes, or a duplicated id).
#[verifier::rlimit(80)]
#[verifier::loop_isolation(false)]
pub fn load_snapshot(b: &Vec<u8>) -> (r: Option<DB>)
    ensures
        match r {
            Some(db) => spec_parse_snapshot(b@) == Some(db@) && db.wf() && (forall|k: int|
                0 <= k < db@.len() ==> (#[trigger] db@[k]).1.url is None),
            None => spec_parse_snapshot(b@) is None,
        },
{
    let blen = b.len();
    if blen < 20 {
        return None;
    }
    if b[0] != 82 || b[1] != 69 || b[2] != 71 || b[3] != 49 {
        proof {
            assert(b@.subrange(0, 4) != spec_magic()) by {
                if b@.subrange(0, 4) == spec_magic() {
                    assert(b@.subrange(0, 4)[0] == 82 && b@.subrange(0, 4)[1] == 69
                        && b@.subrange(0, 4)[2] == 71 && b@.subrange(0, 4)[3] == 49);
                }
            }
        }
        return None;
    }
    proof {
        assert(b@.subrange(0, 4) =~= spec_magic());
    }
    let n = match read_hex16(b, 4) {
        Some(n) => n,
        None => {
            return None;
        },
    };
    let ghost total = sp_parse_recs(b@, 20, n as nat);
    let mut users: Vec<(u64, UserData)> = Vec::new();
    let mut pos: usize = 20;
    let mut i: u64 = 0;
    proof {
        assert(recs_view(users@) =~= Seq::<(u64, UserDataV)>::empty());
        match total {
            None => {},
            Some((rest, p)) => {
                assert(recs_view(users@) + rest =~= rest);
            },
        }
    }
    while i < n
        invariant
            blen == b@.len(),
            blen >= 20,
            i <= n,
            20 <= pos <= blen,
            total == sp_parse_recs(b@, 20, n as nat),
            total == sp_prepend(recs_view(users@), sp_parse_recs(b@, pos as int, (n - i) as nat)),
            forall|k: int|
                0 <= k < users@.len() ==> (#[trigger] recs_view(users@)[k]).1.url is None,
        decreases n - i,
    {
        let ghost tail = sp_parse_recs(b@, pos as int, (n - i) as nat);
        if blen - pos < 64 {
            proof {
                assert(sp_parse_rec(b@, pos as int) is None);
                assert(tail is None);
            }
            return None;
        }
        let id = match read_hex16(b, pos) {
            Some(x) => x,
            None => {
                proof {
                    assert(sp_parse_rec(b@, pos as int) is None);
                    assert(tail is None);
                }
                return None;
            },
        };
        let vids = match read_hex16(b, pos + 16) {
            Some(x) => x,
            None => {
                proof {
                    assert(sp_parse_rec(b@, pos as int) is None);
                    assert(tail is None);
                }
                return None;
            },
        };
        let auds = match read_hex16(b, pos + 32) {
            Some(x) => x,
            None => {
                proof {
                    assert(sp_parse_rec(b@, pos as int) is None);
                    assert(tail is None);
                }
                return None;
            },
        };
        let alen64 = match read_hex16(b, pos + 48) {
            Some(x) => x,
            None => {
                proof {
                    assert(sp_parse_rec(b@, pos as int) is None);
                    assert(tail is None);
                }
                return None;
            },
        };
        let rest = blen - (pos + 64);
        if alen64 > rest as u64 {
            proof {
                assert(sp_parse_rec(b@, pos as int) is None);
                assert(tail is None);
            }
            return None;
        }
        let alen = alen64 as usize;
        let alias = read_bytes(b, pos + 64, alen);
        let data = UserData {
            alias,
            downloads: Downloads { videos: vids, audios: auds },
            url: None,
        };
        let ghost rv = (id, data@);
        proof {
            assert(sp_parse_rec(b@, pos as int) == Some((rv, pos as int + 64 + alen as int)));
        }
        let ghost pre = users@;
        users.push((id, data));
        proof {
            let cur = recs_view(users@);
            assert(cur =~= recs_view(pre).push(rv));
            let next_tail = sp_parse_recs(b@, pos as int + 64 + alen as int, (n - i - 1) as nat);
            match next_tail {
                None => {
                    assert(tail is None);
                    assert(total is None);
                    assert(total == sp_prepend(cur, next_tail));
                },
                Some((rest2, p3)) => {
                    assert(tail == Some((seq![rv] + rest2, p3)));
                    assert(recs_view(pre) + (seq![rv] + rest2) =~= cur + rest2);
                    assert(total == sp_prepend(cur, next_tail));
                },
            }
            assert(forall|k: int|
                0 <= k < users@.len() ==> (#[trigger] recs_view(users@)[k]).1.url is None);
        }
        pos = pos + 64 + alen;
        i = i + 1;
    }
    proof {
        assert(sp_parse_recs(b@, pos as int, 0) == Some((Seq::<(u64, UserDataV)>::empty(), pos as int)));
        assert(recs_view(users@) + Seq::<(u64, UserDataV)>::empty() =~= recs_view(users@));
        assert(total == Some((recs_view(users@), pos as int)));
    }
    if pos != blen {
        return None;
    }
    if !ids_unique(&users) {
        return None;
    }
    let db = DB { users };
    proof {
        assert forall|k: int| 0 <= k < db@.len() implies db@[k] == recs_view(db.users@)[k] by {}
        assert(db@ =~= recs_view(db.users@));
    }
    Some(db)
}

/// Whether no id occurs twice.
fn ids_unique(users: &Vec<(u64, UserData)>) -> (r: bool)
    ensures
        r == wf_v(recs_view(users@)),
{
    let len = users.len();
    let mut i: usize = 0;
    while i < len
        invariant
            len == users@.len(),
            i <= len,
            forall|a: int, c: int|
                0 <= a < c < i ==> (#[trigger] recs_view(users@)[a]).0 != (#[trigger] recs_view(
                    users@,
                )[c]).0,
        decreases len - i,
    {
        let mut j: usize = 0;
        while j < i
            invariant
                len == users@.len(),
                i < len,
                j <= i,
                forall|a: int, c: int|
                    0 <= a < c < i ==> (#[trigger] recs_view(users@)[a]).0 != (
                    #[trigger] recs_view(users@)[c]).0,
                forall|a: int|
                    0 <= a < j ==> (#[trigger] recs_view(users@)[a]).0
                        != recs_view(users@)[i as int].0,
            decreases i - j,
        {
            if users[j].0 == users[i].0 {
                proof {
                    assert(recs_view(users@)[j as int].0 == users@[j as int].0);
                    assert(recs_view(users@)[i as int].0 == users@[i as int].0);
                    assert(!wf_v(recs_view(users@)));
                }
                return false;
            }
            j += 1;
        }
        i += 1;
    }
    true
}

/// Records strip to records with the same ids.
proof fn lemma_strip_ids(v: RegView)
    ensures
        v_strip(v).len() == v.len(),
        forall|k: int| 0 <= k < v.len() ==> (#[trigger] v_strip(v)[k]).0 == v[k].0,
        wf_v(v) ==> wf_v(v_strip(v)),
{
    if wf_v(v) {
        assert forall|a: int, c: int| 0 <= a < c < v_strip(v).len() implies (#[trigger] v_strip(
            v,
        )[a]).0 != (#[trigger] v_strip(v)[c]).0 by {
            assert(v[a].0 != v[c].0);
        }
    }
}

/// One encoded record parses back to its stripped record.
#[verifier::rlimit(80)]
proof fn lemma_parse_rec_of_encoding(b: Seq<u8>, pos: int, r0: (u64, UserDataV))
    requires
        0 <= pos,
        r0.1.alias.len() < 0x10000000000000000,
        pos + enc_rec(r0).len() <= b.len(),
        b.subrange(pos, pos + enc_rec(r0).len() as int) == enc_rec(r0),
    ensures
        enc_rec(r0).len() == 64 + r0.1.alias.len(),
        sp_parse_rec(b, pos) == Some(
            (
                (r0.0, UserDataV { alias: r0.1.alias, downloads: r0.1.downloads, url: None }),
                pos + 64 + r0.1.alias.len(),
            ),
        ),
{
    let alen = r0.1.alias.len() as int;
    let e0 = enc_rec(r0);
    let h1 = hex16_seq(r0.0);
    let h2 = hex16_seq(r0.1.downloads.videos);
    let h3 = hex16_seq(r0.1.downloads.audios);
    let h4 = hex16_seq(r0.1.alias.len() as u64);
    assert(h1.len() == 16 && h2.len() == 16 && h3.len() == 16 && h4.len() == 16);
    assert(e0 == ((((h1 + h2) + h3) + h4) + r0.1.alias));
    assert(e0.len() == 64 + alen);
    let e0p = b.subrange(pos, pos + e0.len() as int);
    lemma_hex16_roundtrip(r0.0);
    lemma_hex16_roundtrip(r0.1.downloads.videos);
    lemma_hex16_roundtrip(r0.1.downloads.audios);
    lemma_hex16_roundtrip(r0.1.alias.len() as u64);
    assert forall|k: int| 0 <= k < 16 implies b.subrange(pos, pos + 16)[k] == h1[k] by {
        assert(b.subrange(pos, pos + 16)[k] == b[pos + k]);
        assert(e0p[k] == b[pos + k]);
        assert(e0p[k] == e0[k]);
        assert(e0[k] == h1[k]);
    }
    assert(b.subrange(pos, pos + 16) =~= h1);
    assert forall|k: int| 0 <= k < 16 implies b.subrange(pos + 16, pos + 32)[k] == h2[k] by {
        let m = 16 + k;
        assert(b.subrange(pos + 16, pos + 32)[k] == b[pos + 16 + k]);
        assert(e0p[m] == b[pos + m]);
        assert(e0p[m] == e0[m]);
        assert(e0[m] == h2[m - 16]);
    }
    assert(b.subrange(pos + 16, pos + 32) =~= h2);
    assert forall|k: int| 0 <= k < 16 implies b.subrange(pos + 32, pos + 48)[k] == h3[k] by {
        let m = 32 + k;
        assert(b.subrange(pos + 32, pos + 48)[k] == b[pos + 32 + k]);
        assert(e0p[m] == b[pos + m]);
        assert(e0p[m] == e0[m]);
        assert(e0[m] == h3[m - 32]);
    }
    assert(b.subrange(pos + 32, pos + 48) =~= h3);
    assert forall|k: int| 0 <= k < 16 implies b.subrange(pos + 48, pos + 64)[k] == h4[k] by {
        let m = 48 + k;
        assert(b.subrange(pos + 48, pos + 64)[k] == b[pos + 48 + k]);
        assert(e0p[m] == b[pos + m]);
        assert(e0p[m] == e0[m]);
        assert(e0[m] == h4[m - 48]);
    }
    assert(b.subrange(pos + 48, pos + 64) =~= h4);
    assert(hex16_val(b.subrange(pos + 48, pos + 64)) as int == alen);
    assert forall|k: int| 0 <= k < alen implies b.subrange(pos + 64, pos + 64 + alen)[k]
        == r0.1.alias[k] by {
        let m = 64 + k;
        assert(b.subrange(pos + 64, pos + 64 + alen)[k] == b[pos + 64 + k]);
        assert(e0p[m] == b[pos + m]);
        assert(e0p[m] == e0[m]);
        assert(e0[m] == r0.1.alias[m - 64]);
    }
    assert(b.subrange(pos + 64, pos + 64 + alen) =~= r0.1.alias);
    assert(r0.1.downloads == (Downloads {
        videos: r0.1.downloads.videos,
        audios: r0.1.downloads.audios,
    }));
}

/// The records of an encoding parse back to the stripped records, consuming
/// everything.
#[verifier::rlimit(100)]
#[verifier::spinoff_prover]
proof fn lemma_parse_recs_of_encoding(b: Seq<u8>, pos: int, v: RegView)
    requires
        0 <= pos <= b.len(),
        b.subrange(pos, b.len() as int) == enc_records(v),
        forall|k: int| 0 <= k < v.len() ==> (#[trigger] v[k]).1.alias.len() < 0x10000000000000000,
    ensures
        sp_parse_recs(b, pos, v.len()) == Some((v_strip(v), b.len() as int)),
    decreases v.len(),
{
    if v.len() == 0 {
        assert(b.subrange(pos, b.len() as int).len() == 0);
        assert(pos == b.len());
        assert(v_strip(v) =~= Seq::<(u64, UserDataV)>::empty());
    } else {
        let r0 = v[0];
        let alen = r0.1.alias.len() as int;
        let e0 = enc_rec(r0);
        assert(hex16_seq(r0.0).len() == 16);
        assert(hex16_seq(r0.1.downloads.videos).len() == 16);
        assert(hex16_seq(r0.1.downloads.audios).len() == 16);
        assert(hex16_seq(r0.1.alias.len() as u64).len() == 16);
        assert(e0.len() == 64 + alen);
        let tail = b.subrange(pos, b.len() as int);
        let rest_enc = enc_records(v.drop_first());
        assert(tail == e0 + rest_enc);
        assert(tail.len() == e0.len() + rest_enc.len());
        assert(pos + 64 + alen <= b.len());
        assert forall|m: int| 0 <= m < e0.len() implies b.subrange(pos, pos + e0.len() as int)[m]
            == e0[m] by {
            assert(b.subrange(pos, pos + e0.len() as int)[m] == b[pos + m]);
            assert(tail[m] == b[pos + m]);
            assert(tail[m] == e0[m]);
        }
        assert(b.subrange(pos, pos + e0.len() as int) =~= e0);
        lemma_parse_rec_of_encoding(b, pos, r0);
        let rv = (r0.0, UserDataV { alias: r0.1.alias, downloads: r0.1.downloads, url: None });
        assert(sp_parse_rec(b, pos) == Some((rv, pos + 64 + alen)));
        assert forall|m: int| 0 <= m < rest_enc.len() implies b.subrange(
            pos + 64 + alen,
            b.len() as int,
        )[m] == rest_enc[m] by {
            let q = 64 + alen + m;
            assert(b.subrange(pos + 64 + alen, b.len() as int)[m] == b[pos + 64 + alen + m]);
            assert(tail[q] == b[pos + q]);
            assert(tail[q] == rest_enc[q - e0.len()]);
        }
        assert(b.subrange(pos + 64 + alen, b.len() as int) =~= rest_enc);
        assert(forall|k: int|
            0 <= k < v.drop_first().len() ==> (#[trigger] v.drop_first()[k]).1.alias.len()
                < 0x10000000000000000) by {
            assert(forall|k: int|
                0 <= k < v.drop_first().len() ==> v.drop_first()[k] == #[trigger] v[k + 1]);
        }
        lemma_parse_recs_of_encoding(b, pos + 64 + alen, v.drop_first());
        assert(v.drop_first().len() == v.len() - 1);
        assert(sp_parse_recs(b, pos, v.len()) == Some(
            (seq![rv] + v_strip(v.drop_first()), b.len() as int),
        ));
        assert(seq![rv] + v_strip(v.drop_first()) =~= v_strip(v));
    }
}

/// Law: a snapshot saved from a well-formed registry parses back to the same
/// records — equal ids, aliases and counters, in the same order — with every
/// pending slot empty.
pub proof fn lemma_snapshot_roundtrip(v: RegView)
    requires
        wf_v(v),
        v.len() < 0x10000000000000000,
        forall|k: int| 0 <= k < v.len() ==> (#[trigger] v[k]).1.alias.len() < 0x10000000000000000,
    ensures
        spec_parse_snapshot(spec_snapshot(v)) == Some(v_strip(v)),
        v_strip(v).len() == v.len(),
        forall|k: int|
            0 <= k < v.len() ==> (#[trigger] v_strip(v)[k]).0 == v[k].0 && v_strip(v)[k].1.alias
                == v[k].1.alias && v_strip(v)[k].1.downloads == v[k].1.downloads && v_strip(
                v,
            )[k].1.url is None,
{
    let b = spec_snapshot(v);
    lemma_hex16_roundtrip(v.len() as u64);
    assert(hex16_seq(v.len() as u64).len() == 16);
    assert(b.len() >= 20);
    assert(b.subrange(0, 4) =~= spec_magic());
    assert(b.subrange(4, 20) =~= hex16_seq(v.len() as u64));
    assert(hex16_val(b.subrange(4, 20)) as nat == v.len());
    assert(b.subrange(20, b.len() as int) =~= enc_records(v));
    lemma_parse_recs_of_encoding(b, 20, v);
    lemma_strip_ids(v);
}

} // verus!
