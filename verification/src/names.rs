//! The fixed key names, option values, message texts and path segments that
//! the gateway's rules speak of, each as a spec-level byte sequence with its
//! executable counterpart.

use vstd::prelude::*;

verus! {

/// The server-assigned timestamp field written into every inserted document: `_time`.
pub open spec fn time_key() -> Seq<u8> {
    seq![95u8, 116u8, 105u8, 109u8, 101u8]
}

pub fn time_key_vec() -> (r: Vec<u8>)
    ensures
        r@ == time_key(),
{
    let mut v: Vec<u8> = Vec::new();
    v.push(95);
    v.push(116);
    v.push(105);
    v.push(109);
    v.push(101);
    proof {
        assert(v@ =~= time_key());
    }
    v
}

/// The backend's internal document id field: `_id`.
pub open spec fn id_key() -> Seq<u8> {
    seq![95u8, 105u8, 100u8]
}

pub fn id_key_vec() -> (r: Vec<u8>)
    ensures
        r@ == id_key(),
{
    let mut v: Vec<u8> = Vec::new();
    v.push(95);
    v.push(105);
    v.push(100);
    proof {
        assert(v@ =~= id_key());
    }
    v
}

/// The per-query execution time limit option: `maxTime`.
pub open spec fn max_time_key() -> Seq<u8> {
    seq![109u8, 97u8, 120u8, 84u8, 105u8, 109u8, 101u8]
}

pub fn max_time_key_vec() -> (r: Vec<u8>)
    ensures
        r@ == max_time_key(),
{
    let mut v: Vec<u8> = Vec::new();
    v.push(109);
    v.push(97);
    v.push(120);
    v.push(84);
    v.push(105);
    v.push(109);
    v.push(101);
    proof {
        assert(v@ =~= max_time_key());
    }
    v
}

/// The default execution time limit, 60000 milliseconds, as number text: `60000`.
pub open spec fn max_time_default() -> Seq<u8> {
    seq![54u8, 48u8, 48u8, 48u8, 48u8]
}

pub fn max_time_default_vec() -> (r: Vec<u8>)
    ensures
        r@ == max_time_default(),
{
    let mut v: Vec<u8> = Vec::new();
    v.push(54);
    v.push(48);
    v.push(48);
    v.push(48);
    v.push(48);
    proof {
        assert(v@ =~= max_time_default());
    }
    v
}

/// The result-set size option: `limit`.
pub open spec fn limit_key() -> Seq<u8> {
    seq![108u8, 105u8, 109u8, 105u8, 116u8]
}

pub fn limit_key_vec() -> (r: Vec<u8>)
    ensures
        r@ == limit_key(),
{
    let mut v: Vec<u8> = Vec::new();
    v.push(108);
    v.push(105);
    v.push(109);
    v.push(105);
    v.push(116);
    proof {
        assert(v@ =~= limit_key());
    }
    v
}

/// The default result-set size, 100, as number text: `100`.
pub open spec fn limit_default() -> Seq<u8> {
    seq![49u8, 48u8, 48u8]
}

pub fn limit_default_vec() -> (r: Vec<u8>)
    ensures
        r@ == limit_default(),
{
    let mut v: Vec<u8> = Vec::new();
    v.push(49);
    v.push(48);
    v.push(48);
    proof {
        assert(v@ =~= limit_default());
    }
    v
}

/// The sort option: `sort`.
pub open spec fn sort_key() -> Seq<u8> {
    seq![115u8, 111u8, 114u8, 116u8]
}

pub fn sort_key_vec() -> (r: Vec<u8>)
    ensures
        r@ == sort_key(),
{
    let mut v: Vec<u8> = Vec::new();
    v.push(115);
    v.push(111);
    v.push(114);
    v.push(116);
    proof {
        assert(v@ =~= sort_key());
    }
    v
}

/// The number text -1, descending order in a sort document: `-1`.
pub open spec fn descending() -> Seq<u8> {
    seq![45u8, 49u8]
}

pub fn descending_vec() -> (r: Vec<u8>)
    ensures
        r@ == descending(),
{
    let mut v: Vec<u8> = Vec::new();
    v.push(45);
    v.push(49);
    proof {
        assert(v@ =~= descending());
    }
    v
}

/// The projection option: `projection`.
pub open spec fn projection_key() -> Seq<u8> {
    seq![112u8, 114u8, 111u8, 106u8, 101u8, 99u8, 116u8, 105u8, 111u8, 110u8]
}

pub fn projection_key_vec() -> (r: Vec<u8>)
    ensures
        r@ == projection_key(),
{
    let mut v: Vec<u8> = Vec::new();
    v.push(112);
    v.push(114);
    v.push(111);
    v.push(106);
    v.push(101);
    v.push(99);
    v.push(116);
    v.push(105);
    v.push(111);
    v.push(110);
    proof {
        assert(v@ =~= projection_key());
    }
    v
}

/// The key of every error body: `error`.
pub open spec fn error_key() -> Seq<u8> {
    seq![101u8, 114u8, 114u8, 111u8, 114u8]
}

pub fn error_key_vec() -> (r: Vec<u8>)
    ensures
        r@ == error_key(),
{
    let mut v: Vec<u8> = Vec::new();
    v.push(101);
    v.push(114);
    v.push(114);
    v.push(111);
    v.push(114);
    proof {
        assert(v@ =~= error_key());
    }
    v
}

/// The key of the not-found sentinel body: `msg`.
pub open spec fn msg_key() -> Seq<u8> {
    seq![109u8, 115u8, 103u8]
}

pub fn msg_key_vec() -> (r: Vec<u8>)
    ensures
        r@ == msg_key(),
{
    let mut v: Vec<u8> = Vec::new();
    v.push(109);
    v.push(115);
    v.push(103);
    proof {
        assert(v@ =~= msg_key());
    }
    v
}

/// The not-found sentinel message: `no results found`.
pub open spec fn no_results_text() -> Seq<u8> {
    seq![110u8, 111u8, 32u8, 114u8, 101u8, 115u8, 117u8, 108u8, 116u8, 115u8, 32u8, 102u8, 111u8, 117u8, 110u8, 100u8]
}

pub fn no_results_text_vec() -> (r: Vec<u8>)
    ensures
        r@ == no_results_text(),
{
    let mut v: Vec<u8> = Vec::new();
    v.push(110);
    v.push(111);
    v.push(32);
    v.push(114);
    v.push(101);
    v.push(115);
    v.push(117);
    v.push(108);
    v.push(116);
    v.push(115);
    v.push(32);
    v.push(102);
    v.push(111);
    v.push(117);
    v.push(110);
    v.push(100);
    proof {
        assert(v@ =~= no_results_text());
    }
    v
}

/// The key of a single-insert acknowledgement: `insertedId`.
pub open spec fn inserted_id_key() -> Seq<u8> {
    seq![105u8, 110u8, 115u8, 101u8, 114u8, 116u8, 101u8, 100u8, 73u8, 100u8]
}

pub fn inserted_id_key_vec() -> (r: Vec<u8>)
    ensures
        r@ == inserted_id_key(),
{
    let mut v: Vec<u8> = Vec::new();
    v.push(105);
    v.push(110);
    v.push(115);
    v.push(101);
    v.push(114);
    v.push(116);
    v.push(101);
    v.push(100);
    v.push(73);
    v.push(100);
    proof {
        assert(v@ =~= inserted_id_key());
    }
    v
}

/// The key of a batch-insert acknowledgement: `insertedIds`.
pub open spec fn inserted_ids_key() -> Seq<u8> {
    seq![105u8, 110u8, 115u8, 101u8, 114u8, 116u8, 101u8, 100u8, 73u8, 100u8, 115u8]
}

pub fn inserted_ids_key_vec() -> (r: Vec<u8>)
    ensures
        r@ == inserted_ids_key(),
{
    let mut v: Vec<u8> = Vec::new();
    v.push(105);
    v.push(110);
    v.push(115);
    v.push(101);
    v.push(114);
    v.push(116);
    v.push(101);
    v.push(100);
    v.push(73);
    v.push(100);
    v.push(115);
    proof {
        assert(v@ =~= inserted_ids_key());
    }
    v
}

/// The key of a document-count body: `docs`.
pub open spec fn docs_key() -> Seq<u8> {
    seq![100u8, 111u8, 99u8, 115u8]
}

pub fn docs_key_vec() -> (r: Vec<u8>)
    ensures
        r@ == docs_key(),
{
    let mut v: Vec<u8> = Vec::new();
    v.push(100);
    v.push(111);
    v.push(99);
    v.push(115);
    proof {
        assert(v@ =~= docs_key());
    }
    v
}

/// The metadata path segment: `_cat`.
pub open spec fn cat_seg() -> Seq<u8> {
    seq![95u8, 99u8, 97u8, 116u8]
}

pub fn cat_seg_vec() -> (r: Vec<u8>)
    ensures
        r@ == cat_seg(),
{
    let mut v: Vec<u8> = Vec::new();
    v.push(95);
    v.push(99);
    v.push(97);
    v.push(116);
    proof {
        assert(v@ =~= cat_seg());
    }
    v
}

/// The database-listing path segment: `databases`.
pub open spec fn databases_seg() -> Seq<u8> {
    seq![100u8, 97u8, 116u8, 97u8, 98u8, 97u8, 115u8, 101u8, 115u8]
}

pub fn databases_seg_vec() -> (r: Vec<u8>)
    ensures
        r@ == databases_seg(),
{
    let mut v: Vec<u8> = Vec::new();
    v.push(100);
    v.push(97);
    v.push(116);
    v.push(97);
    v.push(98);
    v.push(97);
    v.push(115);
    v.push(101);
    v.push(115);
    proof {
        assert(v@ =~= databases_seg());
    }
    v
}

/// The collection-listing path segment: `collections`.
pub open spec fn collections_seg() -> Seq<u8> {
    seq![99u8, 111u8, 108u8, 108u8, 101u8, 99u8, 116u8, 105u8, 111u8, 110u8, 115u8]
}

pub fn collections_seg_vec() -> (r: Vec<u8>)
    ensures
        r@ == collections_seg(),
{
    let mut v: Vec<u8> = Vec::new();
    v.push(99);
    v.push(111);
    v.push(108);
    v.push(108);
    v.push(101);
    v.push(99);
    v.push(116);
    v.push(105);
    v.push(111);
    v.push(110);
    v.push(115);
    proof {
        assert(v@ =~= collections_seg());
    }
    v
}

/// The document-count path segment: `_count`.
pub open spec fn count_seg() -> Seq<u8> {
    seq![95u8, 99u8, 111u8, 117u8, 110u8, 116u8]
}

pub fn count_seg_vec() -> (r: Vec<u8>)
    ensures
        r@ == count_seg(),
{
    let mut v: Vec<u8> = Vec::new();
    v.push(95);
    v.push(99);
    v.push(111);
    v.push(117);
    v.push(110);
    v.push(116);
    proof {
        assert(v@ =~= count_seg());
    }
    v
}

/// The index-listing path segment: `_indexes`.
pub open spec fn indexes_seg() -> Seq<u8> {
    seq![95u8, 105u8, 110u8, 100u8, 101u8, 120u8, 101u8, 115u8]
}

pub fn indexes_seg_vec() -> (r: Vec<u8>)
    ensures
        r@ == indexes_seg(),
{
    let mut v: Vec<u8> = Vec::new();
    v.push(95);
    v.push(105);
    v.push(110);
    v.push(100);
    v.push(101);
    v.push(120);
    v.push(101);
    v.push(115);
    proof {
        assert(v@ =~= indexes_seg());
    }
    v
}

/// The find action path segment: `find`.
pub open spec fn find_seg() -> Seq<u8> {
    seq![102u8, 105u8, 110u8, 100u8]
}

pub fn find_seg_vec() -> (r: Vec<u8>)
    ensures
        r@ == find_seg(),
{
    let mut v: Vec<u8> = Vec::new();
    v.push(102);
    v.push(105);
    v.push(110);
    v.push(100);
    proof {
        assert(v@ =~= find_seg());
    }
    v
}

/// The find-one action path segment: `find_one`.
pub open spec fn find_one_seg() -> Seq<u8> {
    seq![102u8, 105u8, 110u8, 100u8, 95u8, 111u8, 110u8, 101u8]
}

pub fn find_one_seg_vec() -> (r: Vec<u8>)
    ensures
        r@ == find_one_seg(),
{
    let mut v: Vec<u8> = Vec::new();
    v.push(102);
    v.push(105);
    v.push(110);
    v.push(100);
    v.push(95);
    v.push(111);
    v.push(110);
    v.push(101);
    proof {
        assert(v@ =~= find_one_seg());
    }
    v
}

/// The single-insert action path segment: `insert`.
pub open spec fn insert_seg() -> Seq<u8> {
    seq![105u8, 110u8, 115u8, 101u8, 114u8, 116u8]
}

pub fn insert_seg_vec() -> (r: Vec<u8>)
    ensures
        r@ == insert_seg(),
{
    let mut v: Vec<u8> = Vec::new();
    v.push(105);
    v.push(110);
    v.push(115);
    v.push(101);
    v.push(114);
    v.push(116);
    proof {
        assert(v@ =~= insert_seg());
    }
    v
}

/// The batch-insert action path segment: `insert_many`.
pub open spec fn insert_many_seg() -> Seq<u8> {
    seq![105u8, 110u8, 115u8, 101u8, 114u8, 116u8, 95u8, 109u8, 97u8, 110u8, 121u8]
}

pub fn insert_many_seg_vec() -> (r: Vec<u8>)
    ensures
        r@ == insert_many_seg(),
{
    let mut v: Vec<u8> = Vec::new();
    v.push(105);
    v.push(110);
    v.push(115);
    v.push(101);
    v.push(114);
    v.push(116);
    v.push(95);
    v.push(109);
    v.push(97);
    v.push(110);
    v.push(121);
    proof {
        assert(v@ =~= insert_many_seg());
    }
    v
}

/// The aggregation action path segment: `aggregate`.
pub open spec fn aggregate_seg() -> Seq<u8> {
    seq![97u8, 103u8, 103u8, 114u8, 101u8, 103u8, 97u8, 116u8, 101u8]
}

pub fn aggregate_seg_vec() -> (r: Vec<u8>)
    ensures
        r@ == aggregate_seg(),
{
    let mut v: Vec<u8> = Vec::new();
    v.push(97);
    v.push(103);
    v.push(103);
    v.push(114);
    v.push(101);
    v.push(103);
    v.push(97);
    v.push(116);
    v.push(101);
    proof {
        assert(v@ =~= aggregate_seg());
    }
    v
}

} // verus!
