//! The boot scripts an instance receives as EC2 user data, Base64-encoded.

use base64::Engine;
use crate::text::{contains_text, has_prefix, i32_to_decimal, lemma_contains_middle, lemma_middle_determined, spec_signed_decimal};
use crate::webhook::Webhook;
use vstd::prelude::*;
use vstd::string::*;
use vstd::utf8::encode_utf8;

verus! {

/// The character of the standard Base64 alphabet (RFC 4648) for `v` in `0..64`.
pub open spec fn base64_char(v: int) -> char {
    if v < 26 {
        (65 + v) as char
    } else if v < 52 {
        (71 + v) as char
    } else if v < 62 {
        (v - 4) as char
    } else if v == 62 {
        '+'
    } else {
        '/'
    }
}

/// Standard Base64 with `=` padding: each group of three bytes becomes four
/// characters; a last group of one or two bytes is padded.
pub open spec fn spec_base64_encode(b: Seq<u8>) -> Seq<char>
    decreases b.len(),
{
    if b.len() == 0 {
        seq![]
    } else if b.len() == 1 {
        seq![base64_char(b[0] as int / 4), base64_char((b[0] as int % 4) * 16), '=', '=']
    } else if b.len() == 2 {
        seq![
            base64_char(b[0] as int / 4),
            base64_char((b[0] as int % 4) * 16 + b[1] as int / 16),
            base64_char((b[1] as int % 16) * 4),
            '=',
        ]
    } else {
        seq![
            base64_char(b[0] as int / 4),
            base64_char((b[0] as int % 4) * 16 + b[1] as int / 16),
            base64_char((b[1] as int % 16) * 4 + b[2] as int / 64),
            base64_char(b[2] as int % 64),
        ] + spec_base64_encode(b.skip(3))
    }
}

/// The value in `0..64` of a character of the standard Base64 alphabet.
pub open spec fn base64_value(c: char) -> int {
    if 'A' <= c && c <= 'Z' {
        c as int - 65
    } else if 'a' <= c && c <= 'z' {
        c as int - 71
    } else if '0' <= c && c <= '9' {
        c as int + 4
    } else if c == '+' {
        62
    } else {
        63
    }
}

/// Standard Base64 decoding of padded text: each group of four characters
/// gives three bytes, or fewer where `=` pads the group.
pub open spec fn spec_base64_decode(s: Seq<char>) -> Seq<u8>
    decreases s.len(),
{
    if s.len() < 4 {
        seq![]
    } else {
        let v0 = base64_value(s[0]);
        let v1 = base64_value(s[1]);
        let v2 = base64_value(s[2]);
        let v3 = base64_value(s[3]);
        let first = (v0 * 4 + v1 / 16) as u8;
        let second = ((v1 % 16) * 16 + v2 / 4) as u8;
        let third = ((v2 % 4) * 64 + v3) as u8;
        let group = if s[2] == '=' {
            seq![first]
        } else if s[3] == '=' {
            seq![first, second]
        } else {
            seq![first, second, third]
        };
        group + spec_base64_decode(s.skip(4))
    }
}

proof fn lemma_base64_char_value(v: int)
    requires
        0 <= v < 64,
    ensures
        base64_value(base64_char(v)) == v,
        base64_char(v) != '=',
{
}

proof fn lemma_base64_group_arithmetic(b0: int, b1: int, b2: int)
    requires
        0 <= b0 < 256,
        0 <= b1 < 256,
        0 <= b2 < 256,
    ensures
        0 <= b0 / 4 < 64,
        0 <= (b0 % 4) * 16 + b1 / 16 < 64,
        0 <= (b1 % 16) * 4 + b2 / 64 < 64,
        0 <= b2 % 64 < 64,
        0 <= (b0 % 4) * 16 < 64,
        0 <= (b1 % 16) * 4 < 64,
        (b0 / 4) * 4 + ((b0 % 4) * 16 + b1 / 16) / 16 == b0,
        (b0 / 4) * 4 + ((b0 % 4) * 16) / 16 == b0,
        (((b0 % 4) * 16 + b1 / 16) % 16) * 16 + ((b1 % 16) * 4 + b2 / 64) / 4 == b1,
        (((b0 % 4) * 16 + b1 / 16) % 16) * 16 + ((b1 % 16) * 4) / 4 == b1,
        (((b1 % 16) * 4 + b2 / 64) % 4) * 64 + b2 % 64 == b2,
{
}

/// Base64 decoding undoes Base64 encoding.
pub proof fn lemma_base64_round_trip(b: Seq<u8>)
    ensures
        spec_base64_decode(spec_base64_encode(b)) == b,
    decreases b.len(),
{
    if b.len() > 0 {
        let e = spec_base64_encode(b);
        let b0 = b[0] as int;
        let b1 = if b.len() > 1 { b[1] as int } else { 0 };
        let b2 = if b.len() > 2 { b[2] as int } else { 0 };
        lemma_base64_group_arithmetic(b0, b1, b2);
        lemma_base64_char_value(b0 / 4);
        lemma_base64_char_value((b0 % 4) * 16 + b1 / 16);
        lemma_base64_char_value((b0 % 4) * 16);
        lemma_base64_char_value((b1 % 16) * 4 + b2 / 64);
        lemma_base64_char_value((b1 % 16) * 4);
        lemma_base64_char_value(b2 % 64);
        if b.len() == 1 {
            assert(e =~= seq![base64_char(b0 / 4), base64_char((b0 % 4) * 16), '=', '=']);
            assert(e.skip(4) =~= Seq::<char>::empty());
            assert(spec_base64_decode(e.skip(4)) == Seq::<u8>::empty());
            assert(spec_base64_decode(e) == seq![((b0 / 4) * 4 + ((b0 % 4) * 16) / 16) as u8]
                + spec_base64_decode(e.skip(4)));
            assert(spec_base64_decode(e) =~= b);
        } else if b.len() == 2 {
            assert(e =~= seq![
                base64_char(b0 / 4),
                base64_char((b0 % 4) * 16 + b1 / 16),
                base64_char((b1 % 16) * 4),
                '=',
            ]);
            assert(e.skip(4) =~= Seq::<char>::empty());
            assert(spec_base64_decode(e.skip(4)) == Seq::<u8>::empty());
            assert(spec_base64_decode(e) == seq![
                ((b0 / 4) * 4 + ((b0 % 4) * 16 + b1 / 16) / 16) as u8,
                ((((b0 % 4) * 16 + b1 / 16) % 16) * 16 + ((b1 % 16) * 4) / 4) as u8,
            ] + spec_base64_decode(e.skip(4)));
            assert(spec_base64_decode(e) =~= b);
        } else {
            lemma_base64_round_trip(b.skip(3));
            assert(e.skip(4) =~= spec_base64_encode(b.skip(3)));
            assert(spec_base64_decode(e) =~= seq![b[0], b[1], b[2]] + b.skip(3));
            assert(seq![b[0], b[1], b[2]] + b.skip(3) =~= b);
        }
    }
}

/// Different texts have different Base64 encodings of their UTF-8 bytes.
pub proof fn lemma_base64_utf8_injective(a: Seq<char>, b: Seq<char>)
    requires
        a != b,
    ensures
        spec_base64_encode(encode_utf8(a)) != spec_base64_encode(encode_utf8(b)),
{
    lemma_base64_round_trip(encode_utf8(a));
    lemma_base64_round_trip(encode_utf8(b));
    vstd::utf8::encode_utf8_decode_utf8(a);
    vstd::utf8::encode_utf8_decode_utf8(b);
}

/// Encodes the UTF-8 bytes of `text` with `base64::prelude::BASE64_STANDARD`
/// (`Engine::encode`).
/// Claimed: the result is the padded standard Base64 encoding of those bytes.
/// `encode` panics only when the encoded length overflows `usize`, which no
/// string can reach since its byte length is at most `isize::MAX`.
#[verifier::external_body]
pub(crate) fn base64_encode(text: &str) -> (r: String)
    ensures
        r@ == spec_base64_encode(encode_utf8(text@)),
{
    base64::prelude::BASE64_STANDARD.encode(text)
}

/// Text of the tag script before the region.
pub const TAG_SCRIPT_HEAD: &'static str = "#!/bin/sh\n\nTOKEN=$(curl -X PUT http://169.254.169.254/latest/api/token -H 'X-aws-ec2-metadata-token-ttl-seconds: 21600')\nINSTANCE_ID=$(curl -H 'X-aws-ec2-metadata-token: $TOKEN' http://169.254.169.254/latest/meta-data/instance-id/)\n\naws ec2 create-tags --region ";

/// Text of the tag script after the region.
pub const TAG_SCRIPT_TAIL: &'static str = " --resources $INSTANCE_ID --tags Key=Name,Value=\"${GITHUB_REPOSITORY}/${GITHUB_RUN_ID}/${GITHUB_RUN_NUMBER}/${GITHUB_RUN_ATTEMPT}/${GITHUB_JOB}\"";

/// Text between the base script and the encoded tag script.
pub const USER_DATA_DECODE: &'static str = "\n\nbase64 -d '";

/// Text between the encoded tag script and the repository's name.
pub const USER_DATA_PULL: &'static str = "' > /home/runner/tag.sh\nchown runner:runner /home/runner/tag.sh\n\nansible-pull --url https://github.com/drakon64/github-actions-runner-aws.git --checkout canary --extra-vars 'url=https://github.com/";

/// Text between the repository's name and the registration token.
pub const USER_DATA_TOKEN: &'static str = "' --extra-vars 'token=";

/// Text between the registration token and the Spot flag.
pub const USER_DATA_SPOT: &'static str = "' --extra-vars '{ \"spot\": ";

/// Text between the Spot flag and the volume size.
pub const USER_DATA_VOLUME: &'static str = " }' --extra-vars 'ebs_volume_size=";

/// Text after the volume size.
pub const USER_DATA_END: &'static str = "' ansible/runner.yml";

/// `true` or `false`, as `bool` displays.
pub open spec fn spec_bool_text(b: bool) -> Seq<char> {
    if b {
        "true"@
    } else {
        "false"@
    }
}

/// The script that tags the instance with the job it runs.
pub open spec fn spec_tag_script(aws_region: Seq<char>) -> Seq<char> {
    TAG_SCRIPT_HEAD@ + aws_region + TAG_SCRIPT_TAIL@
}

/// The boot script: the base script, then commands that store the tag script
/// and run the Ansible playbook that registers the runner.
pub open spec fn spec_user_data_script(
    base_script: Seq<char>,
    aws_region: Seq<char>,
    full_name: Seq<char>,
    token: Seq<char>,
    spot: bool,
    volume_size: i32,
) -> Seq<char> {
    base_script + USER_DATA_DECODE@ + spec_base64_encode(encode_utf8(spec_tag_script(aws_region)))
        + USER_DATA_PULL@ + full_name + USER_DATA_TOKEN@ + token + USER_DATA_SPOT@
        + spec_bool_text(spot) + USER_DATA_VOLUME@ + spec_signed_decimal(volume_size as int)
        + USER_DATA_END@
}

/// The Base64-encoded boot script of a runner for the job of `webhook`.
pub fn create_user_data(
    webhook: &Webhook,
    spot: bool,
    volume_size: &i32,
    registration_token: &str,
    aws_region: &str,
    base_script: &str,
) -> (r: String)
    ensures
        r@ == spec_base64_encode(
            encode_utf8(
                spec_user_data_script(
                    base_script@,
                    aws_region@,
                    webhook.repository.full_name@,
                    registration_token@,
                    spot,
                    *volume_size,
                ),
            ),
        ),
{
    let mut tag_script = String::from_str(TAG_SCRIPT_HEAD);
    tag_script.append(aws_region);
    tag_script.append(TAG_SCRIPT_TAIL);
    let encoded_tag_script = base64_encode(tag_script.as_str());
    let mut script = String::from_str(base_script);
    script.append(USER_DATA_DECODE);
    script.append(encoded_tag_script.as_str());
    script.append(USER_DATA_PULL);
    script.append(webhook.repository.full_name.as_str());
    script.append(USER_DATA_TOKEN);
    script.append(registration_token);
    script.append(USER_DATA_SPOT);
    if spot {
        script.append("true");
    } else {
        script.append("false");
    }
    script.append(USER_DATA_VOLUME);
    let size = i32_to_decimal(*volume_size);
    script.append(size.as_str());
    script.append(USER_DATA_END);
    base64_encode(script.as_str())
}

/// The tag script names the region it is given: it holds `--region `, the
/// region, and the rest of the command.
pub proof fn lemma_tag_script_names_region(aws_region: Seq<char>)
    ensures
        contains_text(spec_tag_script(aws_region), "--region "@ + aws_region + TAG_SCRIPT_TAIL@),
{
    reveal_strlit("#!/bin/sh\n\nTOKEN=$(curl -X PUT http://169.254.169.254/latest/api/token -H 'X-aws-ec2-metadata-token-ttl-seconds: 21600')\nINSTANCE_ID=$(curl -H 'X-aws-ec2-metadata-token: $TOKEN' http://169.254.169.254/latest/meta-data/instance-id/)\n\naws ec2 create-tags --region ");
    reveal_strlit("--region ");
    let head = TAG_SCRIPT_HEAD@;
    let before = head.subrange(0, head.len() - 9);
    assert(head.subrange(head.len() - 9, head.len() as int) =~= "--region "@);
    assert(head =~= before + "--region "@);
    assert(spec_tag_script(aws_region) =~= before + ("--region "@ + aws_region + TAG_SCRIPT_TAIL@)
        + Seq::<char>::empty());
    lemma_contains_middle(before, "--region "@ + aws_region + TAG_SCRIPT_TAIL@, Seq::<char>::empty());
}

/// Different regions give different tag scripts.
pub proof fn lemma_tag_script_distinguishes_regions(r1: Seq<char>, r2: Seq<char>)
    requires
        r1 != r2,
    ensures
        spec_tag_script(r1) != spec_tag_script(r2),
{
    if spec_tag_script(r1) == spec_tag_script(r2) {
        lemma_middle_determined(TAG_SCRIPT_HEAD@, r1, r2, TAG_SCRIPT_TAIL@);
    }
}

/// The boot script carries the Base64 encoding of the tag script for its
/// region.
pub proof fn lemma_user_data_carries_tag_script(
    base_script: Seq<char>,
    aws_region: Seq<char>,
    full_name: Seq<char>,
    token: Seq<char>,
    spot: bool,
    volume_size: i32,
)
    ensures
        contains_text(
            spec_user_data_script(base_script, aws_region, full_name, token, spot, volume_size),
            spec_base64_encode(encode_utf8(spec_tag_script(aws_region))),
        ),
{
    let p = base_script + USER_DATA_DECODE@;
    let x = spec_base64_encode(encode_utf8(spec_tag_script(aws_region)));
    let q = USER_DATA_PULL@ + full_name + USER_DATA_TOKEN@ + token + USER_DATA_SPOT@
        + spec_bool_text(spot) + USER_DATA_VOLUME@ + spec_signed_decimal(volume_size as int)
        + USER_DATA_END@;
    assert(spec_user_data_script(base_script, aws_region, full_name, token, spot, volume_size)
        =~= p + x + q);
    lemma_contains_middle(p, x, q);
}

/// The user data for two different regions differ, all else being equal.
pub proof fn lemma_user_data_distinguishes_regions(
    base_script: Seq<char>,
    r1: Seq<char>,
    r2: Seq<char>,
    full_name: Seq<char>,
    token: Seq<char>,
    spot: bool,
    volume_size: i32,
)
    requires
        r1 != r2,
    ensures
        spec_base64_encode(
            encode_utf8(spec_user_data_script(base_script, r1, full_name, token, spot, volume_size)),
        ) != spec_base64_encode(
            encode_utf8(spec_user_data_script(base_script, r2, full_name, token, spot, volume_size)),
        ),
{
    let p = base_script + USER_DATA_DECODE@;
    let x1 = spec_base64_encode(encode_utf8(spec_tag_script(r1)));
    let x2 = spec_base64_encode(encode_utf8(spec_tag_script(r2)));
    let q = USER_DATA_PULL@ + full_name + USER_DATA_TOKEN@ + token + USER_DATA_SPOT@
        + spec_bool_text(spot) + USER_DATA_VOLUME@ + spec_signed_decimal(volume_size as int)
        + USER_DATA_END@;
    let s1 = spec_user_data_script(base_script, r1, full_name, token, spot, volume_size);
    let s2 = spec_user_data_script(base_script, r2, full_name, token, spot, volume_size);
    assert(s1 =~= p + x1 + q);
    assert(s2 =~= p + x2 + q);
    lemma_tag_script_distinguishes_regions(r1, r2);
    lemma_base64_utf8_injective(spec_tag_script(r1), spec_tag_script(r2));
    if s1 == s2 {
        lemma_middle_determined(p, x1, x2, q);
    }
    lemma_base64_utf8_injective(s1, s2);
}

/// The boot script begins with the whole base script.
pub proof fn lemma_user_data_starts_with_base_script(
    base_script: Seq<char>,
    aws_region: Seq<char>,
    full_name: Seq<char>,
    token: Seq<char>,
    spot: bool,
    volume_size: i32,
)
    ensures
        has_prefix(
            spec_user_data_script(base_script, aws_region, full_name, token, spot, volume_size),
            base_script,
        ),
{
    let s = spec_user_data_script(base_script, aws_region, full_name, token, spot, volume_size);
    assert(s.subrange(0, base_script.len() as int) =~= base_script);
}

/// The user data for two different registration tokens differ, all else
/// being equal.
pub proof fn lemma_user_data_distinguishes_tokens(
    base_script: Seq<char>,
    aws_region: Seq<char>,
    full_name: Seq<char>,
    t1: Seq<char>,
    t2: Seq<char>,
    spot: bool,
    volume_size: i32,
)
    requires
        t1 != t2,
    ensures
        spec_base64_encode(
            encode_utf8(spec_user_data_script(base_script, aws_region, full_name, t1, spot, volume_size)),
        ) != spec_base64_encode(
            encode_utf8(spec_user_data_script(base_script, aws_region, full_name, t2, spot, volume_size)),
        ),
{
    let p = base_script + USER_DATA_DECODE@ + spec_base64_encode(encode_utf8(spec_tag_script(aws_region)))
        + USER_DATA_PULL@ + full_name + USER_DATA_TOKEN@;
    let q = USER_DATA_SPOT@ + spec_bool_text(spot) + USER_DATA_VOLUME@ + spec_signed_decimal(
        volume_size as int,
    ) + USER_DATA_END@;
    let s1 = spec_user_data_script(base_script, aws_region, full_name, t1, spot, volume_size);
    let s2 = spec_user_data_script(base_script, aws_region, full_name, t2, spot, volume_size);
    assert(s1 =~= p + t1 + q);
    assert(s2 =~= p + t2 + q);
    if s1 == s2 {
        lemma_middle_determined(p, t1, t2, q);
    }
    lemma_base64_utf8_injective(s1, s2);
}

/// Spot and on-demand runners get different user data, all else being
/// equal.
pub proof fn lemma_user_data_distinguishes_spot(
    base_script: Seq<char>,
    aws_region: Seq<char>,
    full_name: Seq<char>,
    token: Seq<char>,
    volume_size: i32,
)
    ensures
        spec_base64_encode(
            encode_utf8(spec_user_data_script(base_script, aws_region, full_name, token, true, volume_size)),
        ) != spec_base64_encode(
            encode_utf8(spec_user_data_script(base_script, aws_region, full_name, token, false, volume_size)),
        ),
{
    reveal_strlit("true");
    reveal_strlit("false");
    let p = base_script + USER_DATA_DECODE@ + spec_base64_encode(encode_utf8(spec_tag_script(aws_region)))
        + USER_DATA_PULL@ + full_name + USER_DATA_TOKEN@ + token + USER_DATA_SPOT@;
    let q = USER_DATA_VOLUME@ + spec_signed_decimal(volume_size as int) + USER_DATA_END@;
    let s1 = spec_user_data_script(base_script, aws_region, full_name, token, true, volume_size);
    let s2 = spec_user_data_script(base_script, aws_region, full_name, token, false, volume_size);
    assert(s1 =~= p + "true"@ + q);
    assert(s2 =~= p + "false"@ + q);
    assert("true"@ != "false"@) by {
        assert("true"@.len() != "false"@.len());
    }
    if s1 == s2 {
        lemma_middle_determined(p, "true"@, "false"@, q);
    }
    lemma_base64_utf8_injective(s1, s2);
}

} // verus!
