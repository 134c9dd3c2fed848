//! The request for a summary of an announcement's text.
use crate::text::{concat, from_chars, slice_chars, to_chars};
use vstd::prelude::*;

verus! {

/// The language model that writes the summaries.
pub const SUMMARY_MODEL: &'static str = "qwen2.5:0.5b";

/// The address of the model's text generation service.
pub const SUMMARY_ENDPOINT: &'static str = "http://localhost:11434/api/generate";

/// The most characters of an announcement's text that go into a request.
pub const SUMMARY_TEXT_LIMIT: usize = 1000;

/// The instructions before the announcement's text: summarize it briefly, only
/// as budget, period, key point and eligibility lines, leaving out what is
/// not there.
pub open spec fn prompt_head() -> Seq<char> {
    "다음 R&D 공고 본문을 간결하게 요약해줘. 반드시 아래 형식으로만 답변해:\n- 예산: (금액)\n- 기간: (수행기간)\n- 핵심내용: (한 줄 요약)\n- 자격: (참여자격)\n정보가 없으면 해당 항목은 생략해.\n\n공고 본문:\n"@
}

/// The prompt for `text`: the instructions, then the first 1000 characters of
/// the text.
pub open spec fn prompt_for(text: Seq<char>) -> Seq<char> {
    prompt_head() + if text.len() <= 1000 {
        text
    } else {
        text.take(1000)
    }
}

/// See `prompt_for`.
pub fn summary_prompt(text: &str) -> (r: String)
    ensures
        r@ == prompt_for(text@),
{
    let chars = to_chars(text);
    let n = if chars.len() <= SUMMARY_TEXT_LIMIT {
        chars.len()
    } else {
        SUMMARY_TEXT_LIMIT
    };
    let head = to_chars(
        "다음 R&D 공고 본문을 간결하게 요약해줘. 반드시 아래 형식으로만 답변해:\n- 예산: (금액)\n- 기간: (수행기간)\n- 핵심내용: (한 줄 요약)\n- 자격: (참여자격)\n정보가 없으면 해당 항목은 생략해.\n\n공고 본문:\n",
    );
    let body = slice_chars(&chars, 0, n);
    assert(body@ =~= if text@.len() <= 1000 {
        text@
    } else {
        text@.take(1000)
    });
    from_chars(&concat(&head, &body))
}

} // verus!
