use vstd::prelude::*;
use crate::embeds::{spec_inspiration_embed, Embed, Reply};

verus! {

/// The notice shown when no image could be fetched.
pub open spec fn spec_inspire_failed_text() -> Seq<char> {
    "Something went wrong while contacting inspirobot"@
}

/// Turn the outcome of fetching an inspirational image into the reply to
/// post: the image as an embed, or the failure notice.
pub fn inspireme(fetched: Option<String>) -> (r: Reply)
    ensures
        match fetched {
            Option::Some(url) => r matches Reply::EmbedMsg(e) && e@ == spec_inspiration_embed(
                url@,
            ),
            Option::None => r matches Reply::Text(m) && m@ == spec_inspire_failed_text(),
        },
{
    match fetched {
        Option::Some(url) => {
            let e = Embed {
                color: 0xA877C8,
                title: Option::None,
                description: Option::None,
                fields: Vec::new(),
                thumbnail: Option::None,
                image: Option::Some(url),
            };
            proof {
                assert(e@.fields =~= spec_inspiration_embed(e.image->Some_0@).fields);
            }
            Reply::EmbedMsg(e)
        },
        Option::None => Reply::Text(
            String::from_str("Something went wrong while contacting inspirobot"),
        ),
    }
}

} // verus!
