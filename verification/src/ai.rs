use vstd::prelude::*;
use crate::outside::{chat_completion_of, json_chat_completion};

verus! {

/// The requested tone, or the default where the caller named none.
pub fn tone_or_default(tone: &Option<String>) -> (r: String)
    ensures
        r@ == (match tone {
            Some(t) => t@,
            None => "friendly"@,
        }),
{
    match tone {
        Some(t) => t.clone(),
        None => "friendly".to_owned(),
    }
}

/// An empty subject is presented to the model as `No subject`.
pub open spec fn subject_or_placeholder(subject: Seq<char>) -> Seq<char> {
    if subject.len() == 0 {
        "No subject"@
    } else {
        subject
    }
}

/// The draft-generation prompt: instructions (naming the tone twice), then
/// the original message's sender, subject and body.
pub open spec fn reply_prompt_spec(
    email_body: Seq<char>,
    sender: Seq<char>,
    subject: Seq<char>,
    tone: Seq<char>,
) -> Seq<char> {
    "You are writing a professional email reply. Write a complete, ready-to-send email reply in a "@
        + tone
        + " tone.\n\nIMPORTANT INSTRUCTIONS:\n- Write a complete email reply - do NOT use placeholders like [Name], [topic], [Your Name], etc.\n- Use the actual sender's name or email address from the context\n- Reference the original email subject naturally\n- Keep it concise (2-4 sentences typically)\n- Be professional, polite, and "@
        + tone
        + " in tone\n- Write as if you are directly replying to the sender\n- Do not include email headers (To, From, Subject) - just the reply body text\n\nOriginal Email:\nFrom: "@
        + sender + "\nSubject: "@ + subject_or_placeholder(subject) + "\nBody: "@ + email_body
        + "\n\nWrite your complete email reply (body text only, no placeholders):"@
}

/// Builds the prompt handed to the language model.
pub fn build_reply_prompt(email_body: &str, sender: &str, subject: &str, tone: &str) -> (r: String)
    ensures
        r@ == reply_prompt_spec(email_body@, sender@, subject@, tone@),
{
    let mut p = String::new();
    p.append(
        "You are writing a professional email reply. Write a complete, ready-to-send email reply in a ",
    );
    p.append(tone);
    p.append(
        " tone.\n\nIMPORTANT INSTRUCTIONS:\n- Write a complete email reply - do NOT use placeholders like [Name], [topic], [Your Name], etc.\n- Use the actual sender's name or email address from the context\n- Reference the original email subject naturally\n- Keep it concise (2-4 sentences typically)\n- Be professional, polite, and ",
    );
    p.append(tone);
    p.append(
        " in tone\n- Write as if you are directly replying to the sender\n- Do not include email headers (To, From, Subject) - just the reply body text\n\nOriginal Email:\nFrom: ",
    );
    p.append(sender);
    p.append("\nSubject: ");
    if subject.unicode_len() == 0 {
        p.append("No subject");
    } else {
        p.append(subject);
    }
    p.append("\nBody: ");
    p.append(email_body);
    p.append("\n\nWrite your complete email reply (body text only, no placeholders):");
    proof {
        assert(p@ =~= reply_prompt_spec(email_body@, sender@, subject@, tone@));
    }
    p
}

/// The plainer prompt of the alternative completion backend: the tone and
/// the message body, nothing else.
pub open spec fn basic_prompt_spec(email_body: Seq<char>, tone: Seq<char>) -> Seq<char> {
    "Write a "@ + tone + " reply to this email:\n\n"@ + email_body + "\n\nYour reply:"@
}

pub fn build_basic_prompt(email_body: &str, tone: &str) -> (r: String)
    ensures
        r@ == basic_prompt_spec(email_body@, tone@),
{
    let mut p = String::new();
    p.append("Write a ");
    p.append(tone);
    p.append(" reply to this email:\n\n");
    p.append(email_body);
    p.append("\n\nYour reply:");
    proof {
        assert(p@ =~= basic_prompt_spec(email_body@, tone@));
    }
    p
}

/// The generated draft text of a model response: its completion where one
/// can be read, else a fixed placeholder — a failed generation never blocks
/// the draft from being created.
pub fn completion_or_placeholder(body: &str) -> (r: String)
    ensures
        r@ == (match chat_completion_of(body@) {
            Some(c) => c,
            None => "Unable to generate draft."@,
        }),
{
    match json_chat_completion(body) {
        Some(c) => c,
        None => "Unable to generate draft.".to_owned(),
    }
}

} // verus!
