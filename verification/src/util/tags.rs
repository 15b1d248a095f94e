use vstd::prelude::*;

verus! {

/// The ASCII bytes of a sequence of characters below 128.
pub open spec fn ascii(cs: Seq<char>) -> Seq<u8> {
    cs.map_values(|c: char| c as u8)
}

/// The ASCII bytes of ASCII characters are valid UTF-8.
pub proof fn lemma_ascii_valid_utf8(cs: Seq<char>)
    requires
        vstd::utf8::is_ascii_chars(cs),
    ensures
        vstd::utf8::valid_utf8(ascii(cs)),
{
    vstd::utf8::is_ascii_chars_encode_utf8(cs);
    assert(vstd::utf8::encode_utf8(cs) =~= ascii(cs));
    vstd::utf8::encode_utf8_valid_utf8(cs);
}

/// Byte-wise equality of two slices.
pub fn bytes_eq(a: &[u8], b: &[u8]) -> (r: bool)
    ensures
        r == (a@ == b@),
{
    if a.len() != b.len() {
        return false;
    }
    let mut i: usize = 0;
    while i < a.len()
        invariant
            a@.len() == b@.len(),
            0 <= i <= a@.len(),
            forall|j: int| 0 <= j < i ==> a@[j] == b@[j],
        decreases a@.len() - i,
    {
        if a[i] != b[i] {
            return false;
        }
        i = i + 1;
    }
    assert(a@ =~= b@);
    true
}

/// The command name `TXT`.
pub open spec fn tag_txt() -> Seq<u8> {
    ascii(seq!['T', 'X', 'T'])
}

pub fn name_txt() -> (r: [u8; 3])
    ensures
        r@ == tag_txt(),
{
    let r = ['T' as u8, 'X' as u8, 'T' as u8];
    assert(r@ =~= tag_txt());
    r
}

/// The command name `PUT`.
pub open spec fn tag_put() -> Seq<u8> {
    ascii(seq!['P', 'U', 'T'])
}

pub fn name_put() -> (r: [u8; 3])
    ensures
        r@ == tag_put(),
{
    let r = ['P' as u8, 'U' as u8, 'T' as u8];
    assert(r@ =~= tag_put());
    r
}

/// The command name `GET`.
pub open spec fn tag_get() -> Seq<u8> {
    ascii(seq!['G', 'E', 'T'])
}

pub fn name_get() -> (r: [u8; 3])
    ensures
        r@ == tag_get(),
{
    let r = ['G' as u8, 'E' as u8, 'T' as u8];
    assert(r@ =~= tag_get());
    r
}

/// The command name `DEL`.
pub open spec fn tag_del() -> Seq<u8> {
    ascii(seq!['D', 'E', 'L'])
}

pub fn name_del() -> (r: [u8; 3])
    ensures
        r@ == tag_del(),
{
    let r = ['D' as u8, 'E' as u8, 'L' as u8];
    assert(r@ =~= tag_del());
    r
}

/// The command name `CNTR`.
pub open spec fn tag_cntr() -> Seq<u8> {
    ascii(seq!['C', 'N', 'T', 'R'])
}

pub fn name_cntr() -> (r: [u8; 4])
    ensures
        r@ == tag_cntr(),
{
    let r = ['C' as u8, 'N' as u8, 'T' as u8, 'R' as u8];
    assert(r@ =~= tag_cntr());
    r
}

/// The command name `INC`.
pub open spec fn tag_inc() -> Seq<u8> {
    ascii(seq!['I', 'N', 'C'])
}

pub fn name_inc() -> (r: [u8; 3])
    ensures
        r@ == tag_inc(),
{
    let r = ['I' as u8, 'N' as u8, 'C' as u8];
    assert(r@ =~= tag_inc());
    r
}

/// The command name `DEC`.
pub open spec fn tag_dec() -> Seq<u8> {
    ascii(seq!['D', 'E', 'C'])
}

pub fn name_dec() -> (r: [u8; 3])
    ensures
        r@ == tag_dec(),
{
    let r = ['D' as u8, 'E' as u8, 'C' as u8];
    assert(r@ =~= tag_dec());
    r
}

/// The command name `BLM_FLTR`.
pub open spec fn tag_blm_fltr() -> Seq<u8> {
    ascii(seq!['B', 'L', 'M', '_', 'F', 'L', 'T', 'R'])
}

pub fn name_blm_fltr() -> (r: [u8; 8])
    ensures
        r@ == tag_blm_fltr(),
{
    let r = ['B' as u8, 'L' as u8, 'M' as u8, '_' as u8, 'F' as u8, 'L' as u8, 'T' as u8, 'R' as u8];
    assert(r@ =~= tag_blm_fltr());
    r
}

/// The command name `ADD`.
pub open spec fn tag_add() -> Seq<u8> {
    ascii(seq!['A', 'D', 'D'])
}

pub fn name_add() -> (r: [u8; 3])
    ensures
        r@ == tag_add(),
{
    let r = ['A' as u8, 'D' as u8, 'D' as u8];
    assert(r@ =~= tag_add());
    r
}

/// The command name `IS_CONSUMED`.
pub open spec fn tag_is_consumed() -> Seq<u8> {
    ascii(seq!['I', 'S', '_', 'C', 'O', 'N', 'S', 'U', 'M', 'E', 'D'])
}

pub fn name_is_consumed() -> (r: [u8; 11])
    ensures
        r@ == tag_is_consumed(),
{
    let r = ['I' as u8, 'S' as u8, '_' as u8, 'C' as u8, 'O' as u8, 'N' as u8, 'S' as u8, 'U' as u8, 'M' as u8, 'E' as u8, 'D' as u8];
    assert(r@ =~= tag_is_consumed());
    r
}

/// The command name `PUT_CFG`.
pub open spec fn tag_put_cfg() -> Seq<u8> {
    ascii(seq!['P', 'U', 'T', '_', 'C', 'F', 'G'])
}

pub fn name_put_cfg() -> (r: [u8; 7])
    ensures
        r@ == tag_put_cfg(),
{
    let r = ['P' as u8, 'U' as u8, 'T' as u8, '_' as u8, 'C' as u8, 'F' as u8, 'G' as u8];
    assert(r@ =~= tag_put_cfg());
    r
}

/// The command name `GET_CFG`.
pub open spec fn tag_get_cfg() -> Seq<u8> {
    ascii(seq!['G', 'E', 'T', '_', 'C', 'F', 'G'])
}

pub fn name_get_cfg() -> (r: [u8; 7])
    ensures
        r@ == tag_get_cfg(),
{
    let r = ['G' as u8, 'E' as u8, 'T' as u8, '_' as u8, 'C' as u8, 'F' as u8, 'G' as u8];
    assert(r@ =~= tag_get_cfg());
    r
}

/// The command name `DEL_CFG`.
pub open spec fn tag_del_cfg() -> Seq<u8> {
    ascii(seq!['D', 'E', 'L', '_', 'C', 'F', 'G'])
}

pub fn name_del_cfg() -> (r: [u8; 7])
    ensures
        r@ == tag_del_cfg(),
{
    let r = ['D' as u8, 'E' as u8, 'L' as u8, '_' as u8, 'C' as u8, 'F' as u8, 'G' as u8];
    assert(r@ =~= tag_del_cfg());
    r
}

/// The command name `RT_LMTR`.
pub open spec fn tag_rt_lmtr() -> Seq<u8> {
    ascii(seq!['R', 'T', '_', 'L', 'M', 'T', 'R'])
}

pub fn name_rt_lmtr() -> (r: [u8; 7])
    ensures
        r@ == tag_rt_lmtr(),
{
    let r = ['R' as u8, 'T' as u8, '_' as u8, 'L' as u8, 'M' as u8, 'T' as u8, 'R' as u8];
    assert(r@ =~= tag_rt_lmtr());
    r
}

/// The command name `CONSUME`.
pub open spec fn tag_consume() -> Seq<u8> {
    ascii(seq!['C', 'O', 'N', 'S', 'U', 'M', 'E'])
}

pub fn name_consume() -> (r: [u8; 7])
    ensures
        r@ == tag_consume(),
{
    let r = ['C' as u8, 'O' as u8, 'N' as u8, 'S' as u8, 'U' as u8, 'M' as u8, 'E' as u8];
    assert(r@ =~= tag_consume());
    r
}

/// The command name `TXT_ARR`.
pub open spec fn tag_txt_arr() -> Seq<u8> {
    ascii(seq!['T', 'X', 'T', '_', 'A', 'R', 'R'])
}

pub fn name_txt_arr() -> (r: [u8; 7])
    ensures
        r@ == tag_txt_arr(),
{
    let r = ['T' as u8, 'X' as u8, 'T' as u8, '_' as u8, 'A' as u8, 'R' as u8, 'R' as u8];
    assert(r@ =~= tag_txt_arr());
    r
}

/// The command name `STORE`.
pub open spec fn tag_store() -> Seq<u8> {
    ascii(seq!['S', 'T', 'O', 'R', 'E'])
}

pub fn name_store() -> (r: [u8; 5])
    ensures
        r@ == tag_store(),
{
    let r = ['S' as u8, 'T' as u8, 'O' as u8, 'R' as u8, 'E' as u8];
    assert(r@ =~= tag_store());
    r
}

/// The command name `ERR`.
pub open spec fn tag_err() -> Seq<u8> {
    ascii(seq!['E', 'R', 'R'])
}

pub fn name_err() -> (r: [u8; 3])
    ensures
        r@ == tag_err(),
{
    let r = ['E' as u8, 'R' as u8, 'R' as u8];
    assert(r@ =~= tag_err());
    r
}

/// The command name `RESP`.
pub open spec fn tag_resp() -> Seq<u8> {
    ascii(seq!['R', 'E', 'S', 'P'])
}

pub fn name_resp() -> (r: [u8; 4])
    ensures
        r@ == tag_resp(),
{
    let r = ['R' as u8, 'E' as u8, 'S' as u8, 'P' as u8];
    assert(r@ =~= tag_resp());
    r
}

/// The command name `CONNECT`.
pub open spec fn tag_connect() -> Seq<u8> {
    ascii(seq!['C', 'O', 'N', 'N', 'E', 'C', 'T'])
}

pub fn name_connect() -> (r: [u8; 7])
    ensures
        r@ == tag_connect(),
{
    let r = ['C' as u8, 'O' as u8, 'N' as u8, 'N' as u8, 'E' as u8, 'C' as u8, 'T' as u8];
    assert(r@ =~= tag_connect());
    r
}

} // verus!
