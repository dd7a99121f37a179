//! Sharing the screen: frames encoded for an MJPEG stream, and
//! notifications forwarded to chat services.
use vstd::prelude::*;
use image::codecs::jpeg::JpegEncoder;
use image::{ExtendedColorType, ImageEncoder};
use crate::features::frame::Frame;
use crate::text::{append_chars, string_from_chars};

verus! {

/// The JPEG that image's encoder writes, at quality 70, for RGB8 pixels
/// `rgb` of a `w` x `h` image.
pub uninterp spec fn jpeg_encoding(rgb: Seq<u8>, w: u32, h: u32) -> Seq<u8>;

/// `image::codecs::jpeg::JpegEncoder::write_image` (quality 70) with RGB8
/// pixels, into a `Vec`. The encoder asserts that the buffer holds exactly
/// the image's pixels (hence the `requires`), refuses an image with a side
/// of 0 or over 65,535 pixels (a baseline JPEG cannot hold it) and, writing
/// to memory, fails in no other way. The bytes are named, not described;
/// the error text is not described either.
#[verifier::external_body]
fn jpeg_encode(rgb: &[u8], w: u32, h: u32) -> (r: Result<Vec<u8>, String>)
    requires
        rgb@.len() == w * h * 3,
    ensures
        r is Ok <==> (1 <= w <= 65535 && 1 <= h <= 65535),
        r matches Ok(b) ==> b@ == jpeg_encoding(rgb@, w, h),
{
    let mut buf = Vec::new();
    let encoder = JpegEncoder::new_with_quality(&mut buf, 70);
    encoder.write_image(rgb, w, h, ExtendedColorType::Rgb8).map_err(|e| e.to_string())?;
    Ok(buf)
}

/// The colour bytes of RGBA pixels `rgba`: each whole pixel's red, green
/// and blue, alpha dropped.
pub open spec fn rgb_of(rgba: Seq<u8>) -> Seq<u8> {
    Seq::new((rgba.len() / 4 * 3) as nat, |k: int| rgba[(k / 3) * 4 + k % 3])
}

/// The first `n` pixels of `rgba` without their alpha bytes.
fn drop_alpha(rgba: &[u8], n: usize) -> (out: Vec<u8>)
    requires
        n * 4 <= rgba@.len(),
    ensures
        out@ == rgb_of(rgba@.subrange(0, n * 4)),
{
    let ghost src = rgba@.subrange(0, n * 4);
    let len = rgba.len();
    let mut out: Vec<u8> = Vec::new();
    let mut p: usize = 0;
    while p < n
        invariant
            len == rgba@.len(),
            n * 4 <= rgba@.len(),
            src == rgba@.subrange(0, n * 4),
            p <= n,
            out@.len() == p * 3,
            forall|k: int| 0 <= k < p * 3 ==> #[trigger] out@[k] == rgba@[(k / 3) * 4 + k % 3],
        decreases n - p,
    {
        assert(p * 4 + 3 < n * 4) by (nonlinear_arith)
            requires
                p < n,
        ;
        let i = p * 4;
        out.push(rgba[i]);
        out.push(rgba[i + 1]);
        out.push(rgba[i + 2]);
        proof {
            assert forall|k: int| 0 <= k < (p + 1) * 3 implies #[trigger] out@[k] == rgba@[(k / 3) * 4 + k % 3] by {
                if k >= p * 3 {
                    vstd::arithmetic::div_mod::lemma_fundamental_div_mod_converse(k, 3, p as int, k - p * 3);
                }
            }
        }
        p = p + 1;
    }
    proof {
        assert(out@ =~= rgb_of(src)) by {
            assert(src.len() / 4 == n) by {
                vstd::arithmetic::div_mod::lemma_fundamental_div_mod_converse(src.len() as int, 4, n as int, 0);
            }
            assert forall|k: int| 0 <= k < out@.len() implies out@[k] == rgb_of(src)[k] by {
                assert((k / 3) * 4 + k % 3 < n * 4) by (nonlinear_arith)
                    requires
                        0 <= k < n * 3,
                ;
            }
        }
    }
    out
}

/// A frame as one JPEG of the MJPEG stream, at quality 70: refused when the
/// buffer holds fewer than `width * height` pixels; otherwise its colours
/// (alpha dropped) as image's encoder writes them, which it does for every
/// image with sides from 1 to 65,535. A buffer longer than the image is
/// not accepted by the encoder, so it is left out.
pub fn encode_jpeg(frame: &Frame) -> (r: Result<Vec<u8>, String>)
    requires
        frame.rgba@.len() <= frame.width * frame.height * 4,
    ensures
        frame.rgba@.len() < frame.width * frame.height * 4 ==> (r matches Err(m) && m@ == "Image buffer creation failed"@),
        frame.rgba@.len() == frame.width * frame.height * 4 ==> {
            &&& r is Ok <==> (1 <= frame.width <= 65535 && 1 <= frame.height <= 65535)
            &&& r matches Ok(b) ==> b@ == jpeg_encoding(rgb_of(frame.rgba@), frame.width, frame.height)
        },
{
    assert(frame.width as int * frame.height as int <= 0xFFFF_FFFF * 0xFFFF_FFFFint) by (nonlinear_arith)
        requires
            frame.width <= 0xFFFF_FFFFu32,
            frame.height <= 0xFFFF_FFFFu32,
    ;
    let need: u128 = frame.width as u128 * frame.height as u128 * 4;
    if need > frame.rgba.len() as u128 {
        return Err("Image buffer creation failed".to_string());
    }
    let n = (frame.width as u128 * frame.height as u128) as usize;
    let rgb = drop_alpha(frame.rgba.as_slice(), n);
    proof {
        assert(frame.rgba@.subrange(0, n * 4) =~= frame.rgba@);
    }
    jpeg_encode(rgb.as_slice(), frame.width, frame.height)
}

/// Where notifications are forwarded: webhook URLs and the Telegram bot.
pub struct NotificationForwarder {
    pub discord_webhook: Option<String>,
    pub slack_webhook: Option<String>,
    pub telegram_bot_token: Option<String>,
    pub telegram_chat_id: Option<String>,
}

/// Which service a message goes to, and how it is addressed there.
pub enum Service {
    /// Posted as `{"content": text}`.
    Discord,
    /// Posted as `{"text": text}`.
    Slack,
    /// Posted as `{"chat_id": chat_id, "text": text}`.
    Telegram { chat_id: String },
}

/// One message to post.
pub struct Outgoing {
    pub url: String,
    pub service: Service,
    pub text: String,
}

/// Discord's text of a notification: bold title, newline, message.
pub open spec fn discord_text(title: Seq<char>, message: Seq<char>) -> Seq<char> {
    "**"@ + title + "**\n"@ + message
}

/// Slack's text of a notification: bold title, newline, message.
pub open spec fn slack_text(title: Seq<char>, message: Seq<char>) -> Seq<char> {
    "*"@ + title + "*\n"@ + message
}

/// Telegram's text of a notification: title, newline, message.
pub open spec fn telegram_text(title: Seq<char>, message: Seq<char>) -> Seq<char> {
    title + "\n"@ + message
}

/// Telegram's send URL for a bot token.
pub open spec fn telegram_url(token: Seq<char>) -> Seq<char> {
    "https://api.telegram.org/bot"@ + token + "/sendMessage"@
}

/// The characters of `parts` joined.
fn joined(a: &str, b: &str, c: &str, d: &str) -> (s: String)
    ensures
        s@ == a@ + b@ + c@ + d@,
{
    let mut out: Vec<char> = Vec::new();
    append_chars(&mut out, a);
    append_chars(&mut out, b);
    append_chars(&mut out, c);
    append_chars(&mut out, d);
    proof {
        assert(out@ =~= a@ + b@ + c@ + d@);
    }
    string_from_chars(&out)
}

impl NotificationForwarder {
    /// Forward to the services that are configured.
    pub fn with_services(
        discord_webhook: Option<String>,
        slack_webhook: Option<String>,
        telegram_bot_token: Option<String>,
        telegram_chat_id: Option<String>,
    ) -> (f: Self)
        ensures
            f.discord_webhook == discord_webhook,
            f.slack_webhook == slack_webhook,
            f.telegram_bot_token == telegram_bot_token,
            f.telegram_chat_id == telegram_chat_id,
    {
        NotificationForwarder { discord_webhook, slack_webhook, telegram_bot_token, telegram_chat_id }
    }

    /// The messages that forward a notification: to Discord and to Slack when
    /// their webhooks are set, and to Telegram when both its bot token and
    /// chat id are, in that order.
    pub fn forward(&self, title: &str, message: &str) -> (out: Vec<Outgoing>)
        ensures
            out@.len() == (if self.discord_webhook is Some { 1int } else { 0 }) + (if self.slack_webhook is Some {
                1int
            } else {
                0
            }) + (if self.telegram_bot_token is Some && self.telegram_chat_id is Some { 1int } else { 0 }),
            forall|k: int|
                0 <= k < out@.len() ==> match (#[trigger] out@[k]).service {
                    Service::Discord => self.discord_webhook matches Some(u) && out@[k].url@ == u@ && out@[k].text@
                        == discord_text(title@, message@) && k == 0,
                    Service::Slack => self.slack_webhook matches Some(u) && out@[k].url@ == u@ && out@[k].text@
                        == slack_text(title@, message@) && k == (if self.discord_webhook is Some { 1int } else { 0 }),
                    Service::Telegram { chat_id } => self.telegram_bot_token matches Some(t) && self.telegram_chat_id matches Some(
                        c,
                    ) && out@[k].url@ == telegram_url(t@) && chat_id@ == c@ && out@[k].text@ == telegram_text(
                        title@,
                        message@,
                    ) && k == out@.len() - 1,
                },
    {
        let mut out: Vec<Outgoing> = Vec::new();
        if let Some(url) = &self.discord_webhook {
            out.push(Outgoing { url: url.clone(), service: Service::Discord, text: joined("**", title, "**\n", message) });
        }
        if let Some(url) = &self.slack_webhook {
            out.push(Outgoing { url: url.clone(), service: Service::Slack, text: joined("*", title, "*\n", message) });
        }
        match (&self.telegram_bot_token, &self.telegram_chat_id) {
            (Some(token), Some(chat_id)) => {
                let url = joined("https://api.telegram.org/bot", token.as_str(), "/sendMessage", "");
                let text = joined(title, "\n", message, "");
                proof {
                    reveal_strlit("");
                    assert(url@ =~= telegram_url(token@));
                    assert(text@ =~= telegram_text(title@, message@));
                }
                out.push(Outgoing { url, service: Service::Telegram { chat_id: chat_id.clone() }, text });
            },
            _ => {},
        }
        out
    }
}

} // verus!
