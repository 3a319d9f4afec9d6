//! The verification digest that binds a proposal to the discussion state it came from.
//!
//! The digest is SHA-256, written in lowercase hex, of the bytes of the discussion's
//! identifier, title, description, category and proposer, followed for each comment, in
//! ledger order and retracted ones included, by its identifier, author, content, creation
//! time and a retraction byte.

use vstd::bytes::{spec_u64_to_le_bytes, u64_to_le_bytes};
use vstd::prelude::*;
use vstd::utf8::encode_utf8;

use sha2::Digest;

use super::state::same_comments;
use super::types::{Comment, Discussion, ProposalCategory};

verus! {

/// SHA-256 of `data`.
pub uninterp spec fn sha256_of(data: Seq<u8>) -> Seq<u8>;

/// Relies on `sha2::Sha256::digest`: the 32-byte SHA-256 of `data`, which depends on
/// `data` alone.
#[verifier::external_body]
fn sha256_digest(data: &[u8]) -> (r: Vec<u8>)
    ensures
        r@ == sha256_of(data@),
        r@.len() == 32,
{
    sha2::Sha256::digest(data).to_vec()
}

/// The lowercase hex digit of `n`, which is below 16.
pub open spec fn hex_digit(n: u8) -> char {
    if n < 10 {
        (('0' as u8) + n) as char
    } else {
        (('a' as u8) + n - 10) as char
    }
}

/// `bytes` in lowercase hex, two digits per byte, high half first.
pub open spec fn hex_lower(bytes: Seq<u8>) -> Seq<char>
    decreases bytes.len(),
{
    if bytes.len() == 0 {
        Seq::empty()
    } else {
        let b = bytes.last();
        hex_lower(bytes.drop_last()) + seq![hex_digit(b / 16), hex_digit(b % 16)]
    }
}

/// Hex writes two digits for each byte.
pub proof fn lemma_hex_lower_len(bytes: Seq<u8>)
    ensures
        hex_lower(bytes).len() == 2 * bytes.len(),
    decreases bytes.len(),
{
    if bytes.len() > 0 {
        lemma_hex_lower_len(bytes.drop_last());
    }
}

/// Relies on `hex::encode`: each byte becomes two lowercase hex digits, high half first,
/// in order.
#[verifier::external_body]
fn hex_encode(data: &[u8]) -> (r: String)
    ensures
        r@ == hex_lower(data@),
{
    hex::encode(data)
}

/// The name of a category, as it enters the digest.
pub open spec fn category_tag(c: ProposalCategory) -> Seq<char> {
    match c {
        ProposalCategory::Constitutional => "Constitutional"@,
        ProposalCategory::Operational => "Operational"@,
        ProposalCategory::Treasury => "Treasury"@,
        ProposalCategory::SoftwareDevelopment => "SoftwareDevelopment"@,
    }
}

/// The name of a category, as it enters the digest.
pub fn category_name(c: ProposalCategory) -> (r: &'static str)
    ensures
        r@ == category_tag(c),
{
    match c {
        ProposalCategory::Constitutional => "Constitutional",
        ProposalCategory::Operational => "Operational",
        ProposalCategory::Treasury => "Treasury",
        ProposalCategory::SoftwareDevelopment => "SoftwareDevelopment",
    }
}

/// The bytes that one comment adds to the digest input.
pub open spec fn comment_bytes(c: Comment) -> Seq<u8> {
    spec_u64_to_le_bytes(c.id) + c.author@ + encode_utf8(c.content@) + spec_u64_to_le_bytes(
        c.created_at,
    ) + seq![if c.is_retracted { 1u8 } else { 0u8 }]
}

/// The bytes that the comments add to the digest input, in order.
pub open spec fn comments_bytes(cs: Seq<Comment>) -> Seq<u8>
    decreases cs.len(),
{
    if cs.len() == 0 {
        Seq::empty()
    } else {
        comments_bytes(cs.drop_last()) + comment_bytes(cs.last())
    }
}

/// The bytes that the discussion itself adds to the digest input.
pub open spec fn discussion_bytes(d: Discussion) -> Seq<u8> {
    spec_u64_to_le_bytes(d.id) + encode_utf8(d.title@) + encode_utf8(d.description@) + encode_utf8(
        category_tag(d.category),
    ) + d.proposer@
}

/// The whole digest input of a discussion and its comments.
pub open spec fn hash_input_of(d: Discussion, cs: Seq<Comment>) -> Seq<u8> {
    discussion_bytes(d) + comments_bytes(cs)
}

/// The verification digest of a discussion and its comments.
pub open spec fn discussion_digest(d: Discussion, cs: Seq<Comment>) -> Seq<char> {
    hex_lower(sha256_of(hash_input_of(d, cs)))
}

/// Appends `bytes` to `out`.
fn append_bytes(out: &mut Vec<u8>, bytes: &[u8])
    ensures
        final(out)@ == old(out)@ + bytes@,
{
    let ghost start = out@;
    let mut i: usize = 0;
    while i < bytes.len()
        invariant
            0 <= i <= bytes@.len(),
            out@ == start + bytes@.subrange(0, i as int),
        decreases bytes@.len() - i,
    {
        out.push(bytes[i]);
        proof {
            assert(start + bytes@.subrange(0, i + 1) =~= start + bytes@.subrange(0, i as int)
                + seq![bytes@[i as int]]);
        }
        i = i + 1;
    }
    proof {
        assert(bytes@.subrange(0, bytes@.len() as int) =~= bytes@);
    }
}

/// The bytes that the digest is computed over.
pub fn hash_input(discussion: &Discussion, comments: &[Comment]) -> (r: Vec<u8>)
    ensures
        r@ == hash_input_of(*discussion, comments@),
{
    let mut out: Vec<u8> = Vec::new();
    append_bytes(&mut out, u64_to_le_bytes(discussion.id).as_slice());
    append_bytes(&mut out, discussion.title.as_str().as_bytes());
    append_bytes(&mut out, discussion.description.as_str().as_bytes());
    append_bytes(&mut out, category_name(discussion.category).as_bytes());
    append_bytes(&mut out, discussion.proposer.as_slice());
    proof {
        assert(out@ =~= discussion_bytes(*discussion));
    }
    let mut i: usize = 0;
    while i < comments.len()
        invariant
            0 <= i <= comments@.len(),
            out@ == discussion_bytes(*discussion) + comments_bytes(comments@.subrange(0, i as int)),
        decreases comments@.len() - i,
    {
        let c = &comments[i];
        let ghost before = out@;
        append_bytes(&mut out, u64_to_le_bytes(c.id).as_slice());
        append_bytes(&mut out, c.author.as_slice());
        append_bytes(&mut out, c.content.as_str().as_bytes());
        append_bytes(&mut out, u64_to_le_bytes(c.created_at).as_slice());
        let flag: u8 = if c.is_retracted {
            1
        } else {
            0
        };
        out.push(flag);
        proof {
            let pre = comments@.subrange(0, i + 1);
            assert(pre.drop_last() =~= comments@.subrange(0, i as int));
            assert(pre.last() == *c);
            assert(out@ =~= before + comment_bytes(*c));
        }
        i = i + 1;
    }
    proof {
        assert(comments@.subrange(0, comments@.len() as int) =~= comments@);
    }
    out
}

/// The verification digest: SHA-256 of the digest input, in lowercase hex.
pub fn generate_discussion_hash(discussion: &Discussion, comments: &[Comment]) -> (r: String)
    ensures
        r@ == discussion_digest(*discussion, comments@),
        r@.len() == 64,
{
    let input = hash_input(discussion, comments);
    let digest = sha256_digest(input.as_slice());
    proof {
        lemma_hex_lower_len(digest@);
    }
    hex_encode(digest.as_slice())
}


/// Copies of comments add the same bytes as the comments.
pub proof fn lemma_comments_bytes_of_copies(a: Seq<Comment>, b: Seq<Comment>)
    requires
        same_comments(a, b),
    ensures
        comments_bytes(a) == comments_bytes(b),
    decreases a.len(),
{
    if a.len() > 0 {
        assert(same_comments(a.drop_last(), b.drop_last())) by {
            assert forall|i: int| 0 <= i < a.len() - 1 implies (#[trigger] a.drop_last()[i]).same_as(
                b.drop_last()[i],
            ) by {
                assert(a[i].same_as(b[i]));
            }
        }
        lemma_comments_bytes_of_copies(a.drop_last(), b.drop_last());
        assert(a.last().same_as(b.last()));
    }
}

/// The digest depends only on the hashed values: copies of a discussion and of its
/// comments give the same digest.
pub proof fn lemma_digest_deterministic(
    d1: Discussion,
    cs1: Seq<Comment>,
    d2: Discussion,
    cs2: Seq<Comment>,
)
    requires
        d1.same_as(d2),
        same_comments(cs1, cs2),
    ensures
        hash_input_of(d1, cs1) == hash_input_of(d2, cs2),
        discussion_digest(d1, cs1) == discussion_digest(d2, cs2),
{
    lemma_comments_bytes_of_copies(cs1, cs2);
}

/// The bytes of a concatenation of comment lists are the concatenation of their bytes.
pub proof fn lemma_comments_bytes_concat(a: Seq<Comment>, b: Seq<Comment>)
    ensures
        comments_bytes(a + b) == comments_bytes(a) + comments_bytes(b),
    decreases b.len(),
{
    if b.len() == 0 {
        assert(a + b =~= a);
        assert(comments_bytes(a) + comments_bytes(b) =~= comments_bytes(a));
    } else {
        lemma_comments_bytes_concat(a, b.drop_last());
        assert((a + b).drop_last() =~= a + b.drop_last());
        assert((a + b).last() == b.last());
        assert(comments_bytes(a) + comments_bytes(b.drop_last()) + comment_bytes(b.last())
            =~= comments_bytes(a) + (comments_bytes(b.drop_last()) + comment_bytes(b.last())));
    }
}

/// Adding a comment changes the digest input.
pub proof fn lemma_hash_input_changes_with_new_comment(d: Discussion, cs: Seq<Comment>, c: Comment)
    ensures
        hash_input_of(d, cs.push(c)) != hash_input_of(d, cs),
{
    assert(cs.push(c).drop_last() =~= cs);
    assert(hash_input_of(d, cs.push(c)).len() > hash_input_of(d, cs).len());
}

/// Retracting a comment that was not retracted changes the digest input.
pub proof fn lemma_hash_input_changes_with_retraction(
    d: Discussion,
    cs: Seq<Comment>,
    i: int,
    retracted_at: u64,
)
    requires
        0 <= i < cs.len(),
        !cs[i].is_retracted,
    ensures
        hash_input_of(
            d,
            cs.update(i, Comment { is_retracted: true, retracted_at: Some(retracted_at), ..cs[i] }),
        ) != hash_input_of(d, cs),
{
    let c2 = Comment { is_retracted: true, retracted_at: Some(retracted_at), ..cs[i] };
    let cs2 = cs.update(i, c2);
    let pre = cs.subrange(0, i);
    let post = cs.subrange(i + 1, cs.len() as int);
    assert(cs =~= pre + seq![cs[i]] + post);
    assert(cs2 =~= pre + seq![c2] + post);
    lemma_comments_bytes_concat(pre + seq![cs[i]], post);
    lemma_comments_bytes_concat(pre, seq![cs[i]]);
    lemma_comments_bytes_concat(pre + seq![c2], post);
    lemma_comments_bytes_concat(pre, seq![c2]);
    assert(seq![cs[i]].drop_last() =~= Seq::<Comment>::empty());
    assert(seq![c2].drop_last() =~= Seq::<Comment>::empty());
    let common = spec_u64_to_le_bytes(cs[i].id) + cs[i].author@ + encode_utf8(cs[i].content@)
        + spec_u64_to_le_bytes(cs[i].created_at);
    assert(comment_bytes(cs[i]) == common + seq![0u8]);
    assert(comment_bytes(c2) == common + seq![1u8]);
    assert(comments_bytes(Seq::<Comment>::empty()) == Seq::<u8>::empty());
    assert(seq![cs[i]].last() == cs[i]);
    assert(seq![c2].last() == c2);
    assert(comments_bytes(seq![cs[i]]) =~= comment_bytes(cs[i]));
    assert(comments_bytes(seq![c2]) =~= comment_bytes(c2));
    assert(comments_bytes(cs) == comments_bytes(pre) + comment_bytes(cs[i]) + comments_bytes(post));
    assert(comments_bytes(cs2) == comments_bytes(pre) + comment_bytes(c2) + comments_bytes(post));
    let head = discussion_bytes(d) + comments_bytes(pre);
    let at = (head.len() + common.len()) as int;
    assert(hash_input_of(d, cs) =~= head + (common + seq![0u8]) + comments_bytes(post));
    assert(hash_input_of(d, cs2) =~= head + (common + seq![1u8]) + comments_bytes(post));
    assert(hash_input_of(d, cs)[at] == 0u8);
    assert(hash_input_of(d, cs2)[at] == 1u8);
}

} // verus!
