use vstd::prelude::*;

use crate::chunk_format::{
    block_bit_width, cell_index, cell_ok, decode_section_step, lane_mask, lane_of, resolved_palette,
    section_cells, ChunkSection,
};
use crate::world_format::{CHUNK_VOLUME, SUBCHUNK_VOLUME};

verus! {

/// Palette indices packed into one word, the first in the lowest `bits` bits.
pub open spec fn pack_lanes(s: Seq<u64>, bits: u64) -> u64
    decreases s.len(),
{
    if s.len() == 0 {
        0
    } else {
        pack_lanes(s.drop_last(), bits) | (s.last() << (((s.len() - 1) * bits) as u64))
    }
}

/// Palette indices packed into words of `64 / bits` lanes each; the last word's unused lanes
/// are zero.
pub open spec fn encode_indices(idx: Seq<u64>, bits: u64) -> Seq<i64> {
    let per_word = (64u64 / bits) as int;
    let n_words = (idx.len() + per_word - 1) / per_word;
    Seq::new(
        n_words as nat,
        |w: int|
            pack_lanes(
                idx.subrange(
                    w * per_word,
                    if (w + 1) * per_word < idx.len() {
                        (w + 1) * per_word
                    } else {
                        idx.len() as int
                    },
                ),
                bits,
            ) as i64,
    )
}

proof fn lemma_or_lanes(x: u64, v: u64, sh: u64, a: u64, bits: u64)
    requires
        4 <= bits <= 64,
        sh + bits <= 64,
        a + bits <= sh,
        sh < 64 ==> x >> sh == 0,
        v <= lane_mask(bits),
    ensures
        ((x | (v << sh)) >> a) & lane_mask(bits) == (x >> a) & lane_mask(bits),
{
    if bits < 64 {
        let m = lane_mask(bits);
        assert(1u64 << bits >= 1) by (bit_vector)
            requires
                bits < 64,
        ;
        assert(m == (1u64 << bits) - 1);
        assert(((x | (v << sh)) >> a) & m == (x >> a) & m) by (bit_vector)
            requires
                bits < 64,
                sh + bits <= 64,
                a + bits <= sh,
                x >> sh == 0,
                v <= m,
                m == (1u64 << bits) - 1,
        ;
    }
}

proof fn lemma_top_lane(x: u64, v: u64, sh: u64, bits: u64)
    requires
        4 <= bits <= 64,
        sh + bits <= 64,
        sh < 64 ==> x >> sh == 0,
        sh == 64 ==> x == 0,
        v <= lane_mask(bits),
    ensures
        ((x | (v << sh)) >> sh) & lane_mask(bits) == v,
        sh + bits < 64 ==> (x | (v << sh)) >> (sh + bits) as u64 == 0,
{
    let m = lane_mask(bits);
    if bits < 64 {
        assert(1u64 << bits >= 1) by (bit_vector)
            requires
                bits < 64,
        ;
        assert(m == (1u64 << bits) - 1);
        assert(((x | (v << sh)) >> sh) & m == v) by (bit_vector)
            requires
                bits < 64,
                sh + bits <= 64,
                x >> sh == 0,
                v <= m,
                m == (1u64 << bits) - 1,
        ;
        assert(sh + bits < 64 ==> (x | (v << sh)) >> (sh + bits) as u64 == 0) by (bit_vector)
            requires
                bits < 64,
                sh + bits <= 64,
                x >> sh == 0,
                v <= m,
                m == (1u64 << bits) - 1,
        ;
    } else {
        assert(sh == 0);
        assert(x >> 0u64 == x) by (bit_vector);
        assert(x == 0);
        assert(((0u64 | (v << 0u64)) >> 0u64) & 0xffff_ffff_ffff_ffffu64 == v) by (bit_vector);
    }
}

proof fn lemma_pack_lanes(s: Seq<u64>, bits: u64)
    requires
        4 <= bits <= 64,
        s.len() * bits <= 64,
        forall|i: int| 0 <= i < s.len() ==> s[i] <= lane_mask(bits),
    ensures
        forall|k: int| 0 <= k < s.len() ==> lane_of(pack_lanes(s, bits), k as u64, bits) == s[k],
        s.len() * bits < 64 ==> pack_lanes(s, bits) >> ((s.len() * bits) as u64) == 0,
        s.len() == 0 ==> pack_lanes(s, bits) == 0,
    decreases s.len(),
{
    if s.len() > 0 {
        let m = (s.len() - 1) as nat;
        let front = s.drop_last();
        assert(m * bits + bits == s.len() * bits) by (nonlinear_arith)
            requires
                m == s.len() - 1,
        ;
        lemma_pack_lanes(front, bits);
        let sh = (m * bits) as u64;
        let x = pack_lanes(front, bits);
        let v = s.last();
        if m == 0 {
            assert(x == 0);
            assert(x >> sh == 0) by (bit_vector)
                requires
                    x == 0,
            ;
        }
        lemma_top_lane(x, v, sh, bits);
        assert(pack_lanes(s, bits) == x | (v << sh));
        assert forall|k: int| 0 <= k < s.len() implies lane_of(
            pack_lanes(s, bits),
            k as u64,
            bits,
        ) == s[k] by {
            assert(k * bits <= 64) by (nonlinear_arith)
                requires
                    k < s.len(),
                    s.len() * bits <= 64,
                    bits >= 0,
            ;
            assert(k <= 16) by (nonlinear_arith)
                requires
                    k * bits <= 64,
                    bits >= 4,
                    k >= 0,
            ;
            assert((k as u64) as int == k);
            if k < m {
                assert(k * bits + bits <= m * bits) by (nonlinear_arith)
                    requires
                        k < m,
                        bits >= 0,
                ;
                lemma_or_lanes(x, v, sh, (k * bits) as u64, bits);
                assert(front[k] == s[k]);
            } else {
                assert(k * bits == m * bits);
            }
        }
        assert(pack_lanes(s, bits) == x | (v << sh));
    } else {
        assert(0u64 >> 0u64 == 0) by (bit_vector);
    }
}

proof fn lemma_word_sign_round_trip(w: u64)
    ensures
        (w as i64) as u64 == w,
{
    assert((w as i64) as u64 == w) by (bit_vector);
}

/// Packing palette indices and decoding the words back gives the same indices, cell for cell;
/// from the start of a section, decoding covers all of them. With indices into a palette of
/// `palette_len` entries and that palette's bit width, a section decodes to the same dense array
/// it was encoded from.
pub proof fn lemma_palette_round_trip(idx: Seq<u64>, palette_len: nat, start: nat)
    requires
        1 <= palette_len <= usize::MAX,
        idx.len() <= SUBCHUNK_VOLUME,
        start % (SUBCHUNK_VOLUME as nat) == 0,
        forall|i: int| 0 <= i < idx.len() ==> idx[i] < palette_len,
    ensures
        ({
            let bits = block_bit_width(palette_len);
            let words = encode_indices(idx, bits);
            &&& section_cells(start, words.len(), (64u64 / bits) as nat) >= idx.len()
            &&& forall|j: nat| j < idx.len() ==> cell_index(words, bits, j) == idx[j as int]
        }),
{
    let bits = block_bit_width(palette_len);
    let top_index = (palette_len - 1) as u64;
    vstd::std_specs::bits::axiom_u64_leading_zeros(top_index);
    let w = (64 - vstd::std_specs::bits::u64_leading_zeros(top_index)) as u64;
    assert(4 <= bits <= 64);
    assert forall|i: int| 0 <= i < idx.len() implies idx[i] <= lane_mask(bits) by {
        if bits < 64 {
            let m = lane_mask(bits);
            assert(1u64 << bits >= 1) by (bit_vector)
            requires
                bits < 64,
        ;
        assert(m == (1u64 << bits) - 1);
            let e = idx[i];
            assert(e < palette_len);
            assert(e <= top_index);
            assert(w <= bits);
            assert(top_index >> w == 0);
            assert(e <= m) by (bit_vector)
                requires
                    top_index >> w == 0,
                    w <= bits,
                    bits < 64,
                    e <= top_index,
                    m == (1u64 << bits) - 1,
            ;
        }
    }
    let per_word = (64u64 / bits) as int;
    assert(1 <= per_word <= 16 && per_word * bits <= 64) by (nonlinear_arith)
        requires
            4 <= bits <= 64,
            per_word == 64u64 / bits,
    ;
    let words = encode_indices(idx, bits);
    let n = idx.len() as int;
    let n_words = (n + per_word - 1) / per_word;
    vstd::arithmetic::div_mod::lemma_fundamental_div_mod(n + per_word - 1, per_word);
    assert(n_words * per_word >= n) by {
        vstd::arithmetic::mul::lemma_mul_is_commutative(per_word, n_words);
    }
    assert forall|j: nat| j < idx.len() implies cell_index(words, bits, j) == idx[j as int] by {
        let wi = j as int / per_word;
        let lane = j as int % per_word;
        vstd::arithmetic::div_mod::lemma_fundamental_div_mod(j as int, per_word);
        vstd::arithmetic::mul::lemma_mul_is_commutative(per_word, wi);
        assert(wi >= 0) by {
            vstd::arithmetic::div_mod::lemma_div_pos_is_pos(j as int, per_word);
        }
        assert(wi < n_words) by (nonlinear_arith)
            requires
                wi * per_word + lane == j,
                0 <= lane,
                j < n,
                n_words * per_word >= n,
                per_word >= 1,
        ;
        let hi = if (wi + 1) * per_word < n {
            (wi + 1) * per_word
        } else {
            n
        };
        assert(wi * per_word + per_word == (wi + 1) * per_word) by (nonlinear_arith);
        let part = idx.subrange(wi * per_word, hi);
        assert(part.len() <= per_word);
        assert(part.len() * bits <= 64) by (nonlinear_arith)
            requires
                part.len() <= per_word,
                per_word * bits <= 64,
                bits >= 0,
        ;
        lemma_pack_lanes(part, bits);
        assert(part[lane] == idx[j as int]);
        assert(words[wi] == pack_lanes(part, bits) as i64);
        lemma_word_sign_round_trip(pack_lanes(part, bits));
    }
    assert(words.len() == n_words);
    assert(section_cells(start, words.len(), per_word as nat) >= idx.len());
}


/// A section whose block states, or whose packed data, are absent writes no block and moves
/// the write index on by a whole section.
pub proof fn lemma_absent_data_skips_section(
    entries: Seq<(String, u16)>,
    start: nat,
    blocks: Seq<u16>,
    section: ChunkSection,
)
    requires
        section.block_states is None || section.block_states->0.data is None,
    ensures
        decode_section_step(entries, Some((start, blocks)), section) == Some(
            ((start + SUBCHUNK_VOLUME) as nat, blocks),
        ),
{
}

/// A palette of one entry is read with four-bit lanes, sixteen to a word, not zero-bit ones.
pub proof fn lemma_single_entry_palette_width()
    ensures
        block_bit_width(1) == 4,
        64u64 / block_bit_width(1) == 16,
{
    vstd::std_specs::bits::axiom_u64_leading_zeros(0);
}

/// A section with a palette of one entry and packed words that are all zero fills sixteen cells
/// per word (four-bit lanes), up to the end of its section, with that entry.
pub proof fn lemma_single_entry_section_decodes(
    entries: Seq<(String, u16)>,
    start: nat,
    blocks: Seq<u16>,
    section: ChunkSection,
)
    requires
        start % (SUBCHUNK_VOLUME as nat) == 0,
        start + SUBCHUNK_VOLUME <= CHUNK_VOLUME,
        blocks.len() == CHUNK_VOLUME,
        section.block_states matches Some(states) && states.data matches Some(d)
            && states.palette@.len() == 1 && (forall|k: int| 0 <= k < d@.len() ==> d@[k] == 0),
    ensures
        ({
            let n = section.block_states->0.data->0@.len();
            let cells = if 16 * n < SUBCHUNK_VOLUME { 16 * n } else { SUBCHUNK_VOLUME as nat };
            let pal = resolved_palette(entries, section.block_states->0.palette@);
            decode_section_step(entries, Some((start, blocks)), section) matches Some((next, out))
                && next == start + cells && (forall|j: int| 0 <= j < cells ==> #[trigger] out[start + j] == pal[0])
        }),
{
    let states = section.block_states->0;
    let words = states.data->0@;
    lemma_single_entry_palette_width();
    assert(lane_mask(4) == 15) by {
        assert(((1u64 << 4u64) - 1) as u64 == 15) by (bit_vector);
    }
    let n = words.len();
    let cells = section_cells(start, n, 16);
    assert forall|j: nat| j < cells implies cell_index(words, 4, j) == 0 by {
        assert(j < 16 * n);
        assert(j / 16 < n) by (nonlinear_arith)
            requires
                j < 16 * n,
        ;
        assert(words[(j / 16) as int] == 0);
        let l = (j % 16) as u64;
        assert(((0i64 as u64) >> ((l * 4) as u64)) & 15u64 == 0) by (bit_vector);
    }
}

/// A full section written by packing palette indices decodes, from a section boundary inside
/// the chunk, to the palette entry of each index, and moves the write index on by a section.
pub proof fn lemma_encoded_section_decodes(
    entries: Seq<(String, u16)>,
    start: nat,
    blocks: Seq<u16>,
    idx: Seq<u64>,
    section: ChunkSection,
)
    requires
        start % (SUBCHUNK_VOLUME as nat) == 0,
        start + SUBCHUNK_VOLUME <= CHUNK_VOLUME,
        blocks.len() == CHUNK_VOLUME,
        idx.len() == SUBCHUNK_VOLUME,
        section.block_states matches Some(states) && states.data matches Some(d) && 1
            <= states.palette@.len() <= usize::MAX && d@ == encode_indices(
            idx,
            block_bit_width(states.palette@.len()),
        ),
        forall|i: int|
            0 <= i < idx.len() ==> idx[i] < section.block_states->0.palette@.len(),
    ensures
        decode_section_step(entries, Some((start, blocks)), section) matches Some((next, out))
            && next == start + SUBCHUNK_VOLUME && out.len() == blocks.len() && (forall|j: int|
            0 <= j < SUBCHUNK_VOLUME ==> out[start + j] == resolved_palette(
                entries,
                section.block_states->0.palette@,
            )[idx[j] as int]),
{
    let states = section.block_states->0;
    let words = states.data->0@;
    let plen = states.palette@.len();
    let bits = block_bit_width(plen);
    lemma_palette_round_trip(idx, plen, start);
    let cells = section_cells(start, words.len(), (64u64 / bits) as nat);
    assert(cells == SUBCHUNK_VOLUME);
    let palette = resolved_palette(entries, states.palette@);
    assert forall|j: nat| j < cells implies cell_ok(words, bits, palette.len(), start, j) by {
        assert(cell_index(words, bits, j) == idx[j as int]);
    }
    assert forall|j: int| 0 <= j < SUBCHUNK_VOLUME implies cell_index(words, bits, j as nat)
        == idx[j] by {
        assert(cell_index(words, bits, j as nat) == idx[j as int]);
    }
}

/// One word with nibbles 1, 0, 0, 2 and then zeros, over a palette of three, fills the first
/// sixteen cells of a section with entries 1, 0, 0, 2 and then entry 0.
pub proof fn lemma_palette_of_three_example(
    entries: Seq<(String, u16)>,
    blocks: Seq<u16>,
    section: ChunkSection,
)
    requires
        blocks.len() == CHUNK_VOLUME,
        section.block_states matches Some(states) && states.data matches Some(d) && d@ == seq![
            0x2001i64,
        ] && states.palette@.len() == 3,
    ensures
        ({
            let pal = resolved_palette(entries, section.block_states->0.palette@);
            decode_section_step(entries, Some((0, blocks)), section) matches Some((next, out))
                && next == 16 && out[0] == pal[1] && out[1] == pal[0] && out[2] == pal[0] && out[3]
                == pal[2] && (forall|j: int| 4 <= j < 16 ==> out[j] == pal[0]) && (forall|j: int|
                16 <= j < CHUNK_VOLUME ==> out[j] == blocks[j])
        }),
{
    let states = section.block_states->0;
    let words = states.data->0@;
    reveal_with_fuel(vstd::std_specs::bits::u64_leading_zeros, 4);
    assert(vstd::std_specs::bits::u64_leading_zeros(2) == 62);
    assert(block_bit_width(3) == 4);
    assert(lane_mask(4) == 15) by {
        assert(((1u64 << 4u64) - 1) as u64 == 15) by (bit_vector);
    }
    assert forall|j: nat| j < 16 implies cell_index(words, 4, j) == (if j == 0 {
        1u64
    } else if j == 3 {
        2u64
    } else {
        0u64
    }) by {
        let l = j as u64;
        assert(j / 16 == 0 && j % 16 == j);
        assert(words[0] as u64 == 0x2001u64) by {
            assert((0x2001i64 as u64) == 0x2001u64) by (bit_vector);
        }
        assert(l < 16 ==> ((0x2001u64 >> ((l * 4) as u64)) & 15u64) == (if l == 0 {
            1u64
        } else if l == 3 {
            2u64
        } else {
            0u64
        })) by (bit_vector);
    }
    assert(section_cells(0, 1, 16) == 16);
}

} // verus!
