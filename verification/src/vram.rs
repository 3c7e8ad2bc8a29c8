//! Video memory: the total of all GPUs, from what the AMD driver reports
//! per card in sysfs (preferred) or from the output of `nvidia-smi`.

use vstd::prelude::*;

use crate::text::{
    has_prefix, lines_spec, parse_u64, parse_u64_spec, split_lines, starts_with, to_chars, trim_chars,
    trimmed, utf8_to_string,
};

verus! {

/// MiB given on one line: the number on it after trimming, 0 when it holds
/// no number.
pub open spec fn line_mib(line: Seq<char>) -> nat {
    match parse_u64_spec(trimmed(line)) {
        Some(v) => v as nat,
        None => 0,
    }
}

/// Sum of the MiB on all lines.
pub open spec fn mib_sum(lines: Seq<Seq<char>>) -> nat
    decreases lines.len(),
{
    if lines.len() == 0 {
        0
    } else {
        mib_sum(lines.drop_last()) + line_mib(lines.last())
    }
}

pub open spec fn cap_u64(x: nat) -> u64 {
    if x > u64::MAX {
        u64::MAX
    } else {
        x as u64
    }
}

/// Total bytes from `nvidia-smi --query-gpu=memory.total` output (one MiB
/// number per GPU and line): the sum of the numbers, capped at `u64::MAX`,
/// times 1 MiB, capped again; `None` when the sum is 0. Lines without a
/// number are skipped.
pub open spec fn nvidia_smi_spec(text: Seq<char>) -> Option<u64> {
    let total = cap_u64(mib_sum(lines_spec(text)));
    if total == 0 {
        None
    } else {
        Some(cap_u64(total as nat * 1048576))
    }
}

/// Total VRAM in bytes from `nvidia-smi` output, summed over all GPUs.
pub fn parse_nvidia_smi(text: &str) -> (r: Option<u64>)
    ensures
        r == nvidia_smi_spec(text@),
{
    let lines = split_lines(&to_chars(text));
    let ghost ls = crate::text::char_vecs_view(lines@);
    let mut total: u64 = 0;
    let mut i: usize = 0;
    assert(ls.take(0) =~= Seq::<Seq<char>>::empty());
    while i < lines.len()
        invariant
            i <= lines@.len(),
            ls == crate::text::char_vecs_view(lines@),
            total == cap_u64(mib_sum(ls.take(i as int))),
        decreases lines@.len() - i,
    {
        let line = trim_chars(&lines[i]);
        assert(ls.take(i + 1).drop_last() =~= ls.take(i as int));
        assert(ls.take(i + 1).last() == lines@[i as int]@);
        if line.len() > 0 {
            match parse_u64(&line) {
                Some(mib) => {
                    total = total.saturating_add(mib);
                },
                None => {},
            }
        } else {
            assert(parse_u64_spec(line@) is None);
        }
        i += 1;
    }
    assert(ls.take(lines@.len() as int) =~= ls);
    if total == 0 {
        return None;
    }
    let bytes = match total.checked_mul(1048576) {
        Some(b) => b,
        None => u64::MAX,
    };
    Some(bytes)
}

/// Kilobytes reported by one entry of the DRM class directory: its name and
/// the text of its `device/mem_info_vram_total` file when that could be
/// read. Only entries named `card…` count, and only when the trimmed text
/// is a number.
pub open spec fn card_kb(name: Seq<char>, text: Option<Seq<char>>) -> Option<u64> {
    if !has_prefix(name, "card"@) {
        None
    } else {
        match text {
            Some(t) => parse_u64_spec(trimmed(t)),
            None => None,
        }
    }
}

pub open spec fn card_view(e: (String, Option<String>)) -> (Seq<char>, Option<Seq<char>>) {
    (
        e.0@,
        match e.1 {
            Some(t) => Some(t@),
            None => None,
        },
    )
}

/// Sum of the kilobytes of the counted cards.
pub open spec fn kb_sum(cards: Seq<(Seq<char>, Option<Seq<char>>)>) -> nat
    decreases cards.len(),
{
    if cards.len() == 0 {
        0
    } else {
        kb_sum(cards.drop_last()) + match card_kb(cards.last().0, cards.last().1) {
            Some(kb) => kb as nat,
            None => 0,
        }
    }
}

/// Some card was counted.
pub open spec fn any_card(cards: Seq<(Seq<char>, Option<Seq<char>>)>) -> bool {
    exists|i: int| 0 <= i < cards.len() && (#[trigger] card_kb(cards[i].0, cards[i].1)) is Some
}

/// Total bytes of the AMD cards: the kilobytes of all counted cards summed
/// (capped at `u64::MAX`) and multiplied by 1024 (capped again); `None`
/// when no card was counted.
pub open spec fn amdgpu_spec(cards: Seq<(Seq<char>, Option<Seq<char>>)>) -> Option<u64> {
    if !any_card(cards) {
        None
    } else {
        Some(cap_u64(cap_u64(kb_sum(cards)) as nat * 1024))
    }
}

/// Total VRAM in bytes of the AMD cards, from the entries of the DRM class
/// directory with what each `mem_info_vram_total` file held.
pub fn amdgpu_vram_total(cards: &[(String, Option<String>)]) -> (r: Option<u64>)
    ensures
        r == amdgpu_spec(cards@.map_values(|e: (String, Option<String>)| card_view(e))),
{
    let ghost cs = cards@.map_values(|e: (String, Option<String>)| card_view(e));
    let card = to_chars("card");
    let mut total: u64 = 0;
    let mut found = false;
    let mut i: usize = 0;
    assert(cs.take(0) =~= Seq::<(Seq<char>, Option<Seq<char>>)>::empty());
    while i < cards.len()
        invariant
            i <= cards@.len(),
            cs == cards@.map_values(|e: (String, Option<String>)| card_view(e)),
            card@ == "card"@,
            total == cap_u64(kb_sum(cs.take(i as int))),
            found == any_card(cs.take(i as int)),
        decreases cards@.len() - i,
    {
        let ghost prefix = cs.take(i as int);
        assert(cs.take(i + 1).drop_last() =~= prefix);
        assert(cs.take(i + 1).last() == cs[i as int]);
        let (name, text) = &cards[i];
        let mut kb: Option<u64> = None;
        if starts_with(&to_chars(name.as_str()), &card) {
            match text {
                Some(t) => {
                    let trimmed_text = trim_chars(&to_chars(t.as_str()));
                    kb = parse_u64(&trimmed_text);
                },
                None => {},
            }
        }
        assert(kb == card_kb(cs[i as int].0, cs[i as int].1));
        match kb {
            Some(v) => {
                total = total.saturating_add(v);
                found = true;
            },
            None => {},
        }
        proof {
            let next = cs.take(i + 1);
            if kb is Some {
                assert(next[i as int] == cs[i as int]);
            } else if any_card(next) {
                let j = choose|j: int|
                    0 <= j < next.len() && (#[trigger] card_kb(next[j].0, next[j].1)) is Some;
                assert(prefix[j] == next[j]);
            }
            if any_card(prefix) {
                let j = choose|j: int|
                    0 <= j < prefix.len() && (#[trigger] card_kb(prefix[j].0, prefix[j].1)) is Some;
                assert(next[j] == prefix[j]);
            }
        }
        i += 1;
    }
    assert(cs.take(cards@.len() as int) =~= cs);
    if !found {
        return None;
    }
    Some(match total.checked_mul(1024) {
        Some(b) => b,
        None => u64::MAX,
    })
}

/// Total VRAM of all GPUs: the AMD total when the driver reported one,
/// else the total from `nvidia-smi`'s output (`None` when the command could
/// not be run or did not succeed, or its output is not UTF-8).
pub open spec fn vram_total_spec(amdgpu: Option<u64>, nvidia_stdout: Option<Seq<u8>>) -> Option<u64> {
    match amdgpu {
        Some(total) => Some(total),
        None => match nvidia_stdout {
            Some(bytes) => if vstd::utf8::valid_utf8(bytes) {
                nvidia_smi_spec(vstd::utf8::decode_utf8(bytes))
            } else {
                None
            },
            None => None,
        },
    }
}

/// Total VRAM of all GPUs in bytes, from the AMD total (see
/// [`amdgpu_vram_total`]) and the standard output of a successful
/// `nvidia-smi --query-gpu=memory.total --format=csv,noheader,nounits`.
pub fn vram_total(amdgpu: Option<u64>, nvidia_stdout: Option<Vec<u8>>) -> (r: Option<u64>)
    ensures
        r == vram_total_spec(
            amdgpu,
            match nvidia_stdout {
                Some(b) => Some(b@),
                None => None,
            },
        ),
{
    if let Some(total) = amdgpu {
        return Some(total);
    }
    match nvidia_stdout {
        Some(bytes) => match utf8_to_string(bytes) {
            Some(text) => parse_nvidia_smi(text.as_str()),
            None => None,
        },
        None => None,
    }
}

} // verus!
