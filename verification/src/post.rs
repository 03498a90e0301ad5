//! The post data types and the byte framing their tag lists are stored in.
//!
//! A tag list travels to the store as a flat blob: for each string, its
//! UTF-8 byte length as eight little-endian bytes, then the bytes. The
//! decoder accepts exactly the blobs the encoder produces.
use vstd::prelude::*;
use vstd::bytes::{spec_u64_to_le_bytes, u64_to_le_bytes, u64_from_le_bytes};
use vstd::bytes::lemma_auto_spec_u64_to_from_le_bytes;
use vstd::slice::{slice_subrange, slice_to_vec};
use vstd::utf8::{encode_utf8, valid_utf8};
use crate::encoding::{bytes_to_string, lemma_encode_utf8_injective, str_eq};

verus! {

/// A list of strings that the storage layer holds as one blob.
#[derive(Debug)]
pub struct VecStr {
    pub data: Vec<String>,
}

/// One string's frame: its UTF-8 byte length as eight little-endian bytes,
/// then the bytes themselves.
pub open spec fn spec_item_bytes(s: Seq<char>) -> Seq<u8> {
    spec_u64_to_le_bytes(encode_utf8(s).len() as u64) + encode_utf8(s)
}

/// The blob of a whole list: the frames of its strings, in order.
pub open spec fn spec_vecstr_bytes(data: Seq<Seq<char>>) -> Seq<u8>
    decreases data.len(),
{
    if data.len() == 0 {
        Seq::empty()
    } else {
        spec_item_bytes(data[0]) + spec_vecstr_bytes(data.drop_first())
    }
}

proof fn lemma_vecstr_bytes_push(data: Seq<Seq<char>>, x: Seq<char>)
    ensures
        spec_vecstr_bytes(data.push(x)) == spec_vecstr_bytes(data) + spec_item_bytes(x),
    decreases data.len(),
{
    if data.len() == 0 {
        assert(data.push(x).drop_first() =~= Seq::<Seq<char>>::empty());
        assert(data.push(x)[0] == x);
        assert(spec_vecstr_bytes(data.push(x)) == spec_item_bytes(x) + spec_vecstr_bytes(
            Seq::<Seq<char>>::empty(),
        ));
        assert(spec_vecstr_bytes(data.push(x)) =~= spec_vecstr_bytes(data) + spec_item_bytes(x));
    } else {
        assert(data.push(x).drop_first() =~= data.drop_first().push(x));
        lemma_vecstr_bytes_push(data.drop_first(), x);
        assert(spec_vecstr_bytes(data.push(x)) =~= spec_vecstr_bytes(data) + spec_item_bytes(x));
    }
}

/// The blob of a list forces the list: whatever completes the blob of a
/// prefix to the blob of a full list must begin with that prefix.
proof fn lemma_vecstr_prefix(acc: Seq<Seq<char>>, rest: Seq<u8>, d: Seq<Seq<char>>)
    requires
        spec_vecstr_bytes(acc) + rest == spec_vecstr_bytes(d),
        spec_vecstr_bytes(d).len() <= u64::MAX,
    ensures
        acc.len() <= d.len(),
        d.take(acc.len() as int) == acc,
        spec_vecstr_bytes(d.skip(acc.len() as int)) == rest,
    decreases acc.len(),
{
    lemma_auto_spec_u64_to_from_le_bytes();
    if acc.len() == 0 {
        assert(d.take(0) =~= acc);
        assert(d.skip(0) =~= d);
        assert(spec_vecstr_bytes(acc) + rest =~= rest);
    } else {
        let whole = spec_vecstr_bytes(d);
        assert(d.len() > 0) by {
            if d.len() == 0 {
                assert(whole.len() == 0);
                assert(spec_vecstr_bytes(acc).len() >= 8);
            }
        }
        let a0 = acc[0];
        let d0 = d[0];
        let ea = encode_utf8(a0);
        let ed = encode_utf8(d0);
        assert(whole =~= spec_item_bytes(a0) + (spec_vecstr_bytes(acc.drop_first()) + rest));
        assert(whole == spec_item_bytes(d0) + spec_vecstr_bytes(d.drop_first()));
        assert(whole.subrange(0, 8) =~= spec_u64_to_le_bytes(ea.len() as u64));
        assert(whole.subrange(0, 8) =~= spec_u64_to_le_bytes(ed.len() as u64));
        assert(ea.len() <= whole.len() && ed.len() <= whole.len());
        assert(ea.len() == ed.len());
        assert(ea =~= whole.subrange(8, 8 + ea.len() as int));
        assert(ed =~= whole.subrange(8, 8 + ed.len() as int));
        lemma_encode_utf8_injective(a0, d0);
        let k = 8 + ea.len() as int;
        assert(spec_vecstr_bytes(acc.drop_first()) + rest =~= whole.subrange(
            k,
            whole.len() as int,
        ));
        assert(spec_vecstr_bytes(d.drop_first()) =~= whole.subrange(k, whole.len() as int));
        lemma_vecstr_prefix(acc.drop_first(), rest, d.drop_first());
        assert(d.take(acc.len() as int) =~= acc) by {
            assert(d.drop_first().take(acc.len() - 1) == acc.drop_first());
            assert forall|i: int| 0 <= i < acc.len() implies d.take(acc.len() as int)[i]
                == acc[i] by {
                if i > 0 {
                    assert(acc.drop_first()[i - 1] == acc[i]);
                    assert(d.drop_first().take(acc.len() - 1)[i - 1] == d[i]);
                }
            }
        }
        assert(d.skip(acc.len() as int) =~= d.drop_first().skip(acc.len() - 1));
    }
}

/// The framing is injective: equal blobs are equal lists.
pub proof fn lemma_vecstr_bytes_injective(d1: Seq<Seq<char>>, d2: Seq<Seq<char>>)
    requires
        spec_vecstr_bytes(d1) == spec_vecstr_bytes(d2),
        spec_vecstr_bytes(d1).len() <= u64::MAX,
    ensures
        d1 == d2,
{
    assert(spec_vecstr_bytes(d1) + Seq::<u8>::empty() =~= spec_vecstr_bytes(d2));
    lemma_vecstr_prefix(d1, Seq::empty(), d2);
    let tail = d2.skip(d1.len() as int);
    assert(tail.len() == 0) by {
        if tail.len() > 0 {
            vstd::bytes::lemma_auto_spec_u64_to_from_le_bytes();
            assert(spec_vecstr_bytes(tail) == spec_item_bytes(tail[0]) + spec_vecstr_bytes(
                tail.drop_first(),
            ));
            assert(spec_vecstr_bytes(tail).len() >= 8);
        }
    }
    assert(d2.take(d1.len() as int) =~= d2);
    assert(d1 =~= d2);
}

impl VecStr {
    /// Frame every string of the list, in order.
    pub fn to_bytes(&self) -> (r: Vec<u8>)
        ensures
            r@ == spec_vecstr_bytes(self.data.deep_view()),
    {
        let mut out: Vec<u8> = Vec::new();
        let n = self.data.len();
        let mut i: usize = 0;
        while i < n
            invariant
                n == self.data@.len(),
                0 <= i <= n,
                out@ == spec_vecstr_bytes(self.data.deep_view().take(i as int)),
            decreases n - i,
        {
            let sb = self.data[i].as_str().as_bytes();
            let lenb = u64_to_le_bytes(sb.len() as u64);
            out.extend_from_slice(lenb.as_slice());
            out.extend_from_slice(sb);
            proof {
                let dv = self.data.deep_view();
                lemma_vecstr_bytes_push(dv.take(i as int), dv[i as int]);
                assert(dv.take(i + 1) =~= dv.take(i as int).push(dv[i as int]));
                assert(out@ =~= spec_vecstr_bytes(dv.take(i + 1)));
            }
            i = i + 1;
        }
        proof {
            assert(self.data.deep_view().take(n as int) =~= self.data.deep_view());
        }
        out
    }

    /// Read a blob back. The result is the one list whose frames the blob
    /// holds, and `None` exactly when the blob frames no list: a length
    /// field runs past the end, or a string is not UTF-8.
    #[verifier::rlimit(60)]
    pub fn from_bytes(bytes: &[u8]) -> (r: Option<VecStr>)
        ensures
            match r {
                Some(v) => bytes@ == spec_vecstr_bytes(v.data.deep_view()),
                None => forall|d: Seq<Seq<char>>| bytes@ != spec_vecstr_bytes(d),
            },
    {
        proof {
            lemma_auto_spec_u64_to_from_le_bytes();
        }
        broadcast use vstd::utf8::encode_utf8_valid_utf8;

        let total = bytes.len();
        let mut data: Vec<String> = Vec::new();
        let mut rest: &[u8] = bytes;
        loop
            invariant
                total == bytes@.len(),
                bytes@ == spec_vecstr_bytes(data.deep_view()) + rest@,
            decreases rest@.len(),
        {
            proof {
                lemma_auto_spec_u64_to_from_le_bytes();
            }
            if rest.len() == 0 {
                proof {
                    assert(bytes@ =~= spec_vecstr_bytes(data.deep_view()));
                }
                return Some(VecStr { data });
            }
            if rest.len() < 8 {
                proof {
                    assert forall|d: Seq<Seq<char>>| bytes@ != spec_vecstr_bytes(d) by {
                        if bytes@ == spec_vecstr_bytes(d) {
                            lemma_vecstr_prefix(data.deep_view(), rest@, d);
                            let tail = d.skip(data.deep_view().len() as int);
                            assert(spec_vecstr_bytes(tail) == rest@);
                            assert(tail.len() > 0);
                            assert(spec_vecstr_bytes(tail) == spec_item_bytes(tail[0])
                                + spec_vecstr_bytes(tail.drop_first()));
                            assert(rest@.len() >= 8);
                        }
                    }
                }
                return None;
            }
            let l = u64_from_le_bytes(slice_subrange(rest, 0, 8));
            if l > (rest.len() - 8) as u64 {
                proof {
                    assert forall|d: Seq<Seq<char>>| bytes@ != spec_vecstr_bytes(d) by {
                        if bytes@ == spec_vecstr_bytes(d) {
                            lemma_vecstr_prefix(data.deep_view(), rest@, d);
                            let tail = d.skip(data.deep_view().len() as int);
                            assert(spec_vecstr_bytes(tail) == rest@);
                            assert(tail.len() > 0);
                            let e0 = encode_utf8(tail[0]);
                            assert(rest@.subrange(0, 8) =~= spec_u64_to_le_bytes(
                                e0.len() as u64,
                            ));
                            assert(8 + e0.len() <= rest@.len());
                            assert(l == e0.len() as u64);
                        }
                    }
                }
                return None;
            }
            let li: usize = l as usize;
            let sb = slice_subrange(rest, 8, 8 + li);
            let s = match bytes_to_string(slice_to_vec(sb)) {
                None => {
                    proof {
                        assert forall|d: Seq<Seq<char>>| bytes@ != spec_vecstr_bytes(d) by {
                            if bytes@ == spec_vecstr_bytes(d) {
                                lemma_vecstr_prefix(data.deep_view(), rest@, d);
                                let tail = d.skip(data.deep_view().len() as int);
                                assert(spec_vecstr_bytes(tail) == rest@);
                                assert(tail.len() > 0);
                                let e0 = encode_utf8(tail[0]);
                                assert(rest@.subrange(0, 8) =~= spec_u64_to_le_bytes(
                                    e0.len() as u64,
                                ));
                                assert(8 + e0.len() <= rest@.len());
                                assert(e0.len() == li);
                                assert(e0 =~= rest@.subrange(8, 8 + li as int));
                                vstd::utf8::encode_utf8_valid_utf8(tail[0]);
                                assert(valid_utf8(e0));
                                assert(sb@ =~= rest@.subrange(8, 8 + li as int));
                                assert(valid_utf8(sb@));
                            }
                        }
                    }
                    return None;
                },
                Some(s) => s,
            };
            let ghost old_dv = data.deep_view();
            data.push(s);
            let next = slice_subrange(rest, 8 + li, rest.len());
            proof {
                assert(data.deep_view() =~= old_dv.push(s@));
                lemma_vecstr_bytes_push(old_dv, s@);
                assert(spec_item_bytes(s@) =~= rest@.subrange(0, 8 + li as int)) by {
                    assert(encode_utf8(s@) == sb@);
                    assert(sb@ =~= rest@.subrange(8, 8 + li as int));
                    assert(rest@.subrange(0, 8) =~= spec_u64_to_le_bytes(sb@.len() as u64));
                }
                assert(bytes@ =~= spec_vecstr_bytes(data.deep_view()) + next@);
            }
            rest = next;
        }
    }
}

/// A request to create a post.
#[derive(Debug)]
pub struct PostCreateRequest {
    pub name: String,
    pub content: String,
    pub tags: Option<VecStr>,
}

/// A request to delete a post by its identifier.
#[derive(Debug)]
pub struct PostDeleteRequest {
    pub id: i64,
}

/// A request to fetch a post by its identifier.
#[derive(Debug)]
pub struct PostGetRequest {
    pub id: i64,
}

/// Default post identifier for a fetch request that names none.
pub fn one() -> (r: i64)
    ensures
        r == 1,
{
    1
}

/// Where a post stands in its life.
#[derive(Clone, Copy, Debug, PartialEq, Eq, Structural)]
pub enum PostStatus {
    Draft,
    Published,
}

impl PostStatus {
    /// Read a status back from its stored text. Anything but the literal
    /// `"Published"` is a draft.
    pub fn from_text(value: &str) -> (r: PostStatus)
        ensures
            r == (if value@ == "Published"@ {
                PostStatus::Published
            } else {
                PostStatus::Draft
            }),
    {
        if str_eq(value, "Published") {
            PostStatus::Published
        } else {
            PostStatus::Draft
        }
    }
}

/// A stored post.
#[derive(Debug)]
pub struct Post {
    pub id: i64,
    pub name: String,
    pub content: String,
    pub date: i64,
    pub tags: VecStr,
    pub owner: String,
    pub status: PostStatus,
}

} // verus!
