//! What is read from a page: which part of it each answer shows.

use crate::double;
use crate::json::{self, JsonV};
use crate::model::{DescriptionV, DiscountV, PriceType};
use crate::parse;
use crate::pattern;
use crate::text;
use crate::widgets;
use vstd::prelude::*;

verus! {

/// A review shows what its author says under the name that they say it under: what they like
/// apart from what they do not. A text that is missing is not made up.
pub proof fn reviews_are_read_part_by_part(review: JsonV)
    ensures
        ({
            let shown = parse::review_in(review);
            let content = review.field("content"@);
            &&& shown.comment matches Some(s) ==> content.field("comment"@) == JsonV::Text(s)
            &&& shown.pros matches Some(s) ==> content.field("positive"@) == JsonV::Text(s)
            &&& shown.cons matches Some(s) ==> content.field("negative"@) == JsonV::Text(s)
            &&& shown.comment is Some <==> content.field("comment"@) is Text
            &&& shown.pros is Some <==> content.field("positive"@) is Text
            &&& shown.cons is Some <==> content.field("negative"@) is Text
            &&& shown.score == parse::rating_in(content.get("score"@))
            &&& shown.useful == parse::count_in(review.field("usefulness"@).get("useful"@))
            &&& shown.purchased matches Some(b) ==> review.field("isItemPurchased"@) == JsonV::Bool(
                b,
            )
            &&& shown.purchased is Some <==> review.field("isItemPurchased"@) is Bool
            &&& shown.has_photos == Some(true) <==> content.field("photos"@) is Array
                && content.field("photos"@)->Array_0.len() > 0
            &&& shown.has_photos is Some <==> content.field("photos"@) is Array
        }),
{
}

/// A review is dated by its publication, and by its creation only where it tells of no
/// publication.
pub proof fn reviews_are_dated_by_their_publication(review: JsonV)
    ensures
        ({
            let shown = parse::review_in(review).date;
            &&& review.get("publishedAt"@) is Some ==> shown == parse::date_in(
                review.get("publishedAt"@),
            )
            &&& review.get("publishedAt"@) is None ==> shown == parse::date_in(
                review.get("createdAt"@),
            )
        }),
{
}

/// The author of a review is named by their title, else by first and last name in this order,
/// and called anonymous only where the review says so and gives no name.
pub proof fn authors_are_named(review: JsonV)
    ensures
        ({
            let shown = parse::review_in(review).author;
            let author = review.field("author"@);
            let title = parse::text_in(author.get("title"@));
            let first = parse::words_of(author.field("firstName"@));
            let last = parse::words_of(author.field("lastName"@));
            &&& title is Some ==> shown == title
            &&& title is None && first is Some && last is Some ==> {
                &&& shown is Some
                &&& shown->Some_0.len() == first->Some_0.len() + 1 + last->Some_0.len()
                &&& first->Some_0.is_prefix_of(shown->Some_0)
                &&& shown->Some_0[first->Some_0.len() as int] == ' '
                &&& shown->Some_0.skip((first->Some_0.len() + 1) as int) == last->Some_0
            }
            &&& title is None && first is Some && last is None ==> shown == first
            &&& title is None && first is None && last is Some ==> shown == last
            &&& title is None && first is None && last is None ==> {
                &&& review.field("isAnonymous"@) == JsonV::Bool(true) ==> shown == Some("Аноним"@)
                &&& review.field("isAnonymous"@) != JsonV::Bool(true) ==> shown is None
            }
        }),
{
    reveal_strlit(" ");
    let author = review.field("author"@);
    let first = parse::words_of(author.field("firstName"@));
    let last = parse::words_of(author.field("lastName"@));
    if first is Some && last is Some {
        let whole = first->Some_0 + " "@ + last->Some_0;
        assert(whole.skip((first->Some_0.len() + 1) as int) =~= last->Some_0);
    }
}

/// A page of reviews shows the first reviews of the page, in order, up to the limit.
pub proof fn reviews_are_those_of_the_page(page: JsonV, limit: usize, i: int)
    ensures
        ({
            let shown = parse::review_page_of(page, limit);
            let listed = parse::raw_reviews(page);
            &&& shown.reviews.len() == if listed.len() < limit {
                listed.len()
            } else {
                limit as nat
            }
            &&& 0 <= i < shown.reviews.len() ==> shown.reviews[i] == parse::review_in(listed[i])
            &&& shown.rating == parse::product_score(page).0
            &&& shown.total_reviews == parse::product_score(page).1
            &&& shown.warnings.len() == 0
        }),
{
}

/// Only objects count as rows, and every object does, in order.
pub proof fn rows_are_the_objects(v: Seq<JsonV>, w: Seq<JsonV>, x: JsonV)
    ensures
        parse::objects_of(v + w) == parse::objects_of(v) + parse::objects_of(w),
        x is Object ==> parse::objects_of(seq![x]) == seq![x],
        x !is Object ==> parse::objects_of(seq![x]) == Seq::<JsonV>::empty(),
    decreases w.len(),
{
    assert(seq![x].drop_last() =~= Seq::<JsonV>::empty());
    assert(parse::objects_of(seq![x].drop_last()) =~= Seq::<JsonV>::empty());
    assert(Seq::<JsonV>::empty().push(x) =~= seq![x]);
    if w.len() == 0 {
        assert(v + w =~= v);
        assert(parse::objects_of(v) + parse::objects_of(w) =~= parse::objects_of(v));
    } else {
        rows_are_the_objects(v, w.drop_last(), x);
        assert((v + w).drop_last() =~= v + w.drop_last());
        assert(parse::objects_of(v + w) =~= parse::objects_of(v) + parse::objects_of(w));
    }
}

/// The words of a value are its own where it is a text with words, else those of its `text`, else
/// those of its `content`.
pub proof fn words_are_found_in_their_place(v: JsonV)
    ensures
        parse::text_in(None) is None,
        parse::words_of(v) is Some ==> parse::text_in(Some(v)) == parse::words_of(v),
        parse::words_of(v) is None && parse::words_of(v.field("text"@)) is Some ==> parse::text_in(
            Some(v),
        ) == parse::words_of(v.field("text"@)),
        parse::words_of(v) is None && parse::words_of(v.field("text"@)) is None ==> parse::text_in(
            Some(v),
        ) == parse::words_of(v.field("content"@)),
        parse::words_of(v) is Some ==> v is Text && parse::words_of(v)->Some_0.len() > 0,
{
}

/// A tile shows the first of its images that has an address.
pub proof fn tiles_show_their_first_image(v: Seq<JsonV>, i: int)
    requires
        0 <= i <= v.len(),
    ensures
        ({
            let shown = parse::first_image(v, i);
            ||| shown is None && forall|k: int| i <= k < v.len() ==> parse::image_in((#[trigger] v[k]).get("image"@)) is None
            ||| exists|k: int|
                i <= k < v.len() && shown is Some && parse::image_in((#[trigger] v[k]).get("image"@)) == shown && forall|j: int|
                    i <= j < k ==> parse::image_in((#[trigger] v[j]).get("image"@)) is None
        }),
    decreases v.len() - i,
{
    if i < v.len() && parse::image_in((v[i]).get("image"@)) is None {
        tiles_show_their_first_image(v, i + 1);
        let shown = parse::first_image(v, i + 1);
        if shown is Some {
            let k = choose|k: int|
                i < k < v.len() && parse::image_in((#[trigger] v[k]).get("image"@)) == shown && forall|j: int|
                    i < j < k ==> parse::image_in((#[trigger] v[j]).get("image"@)) is None;
            assert(forall|j: int| i <= j < k ==> parse::image_in((#[trigger] v[j]).get("image"@)) is None);
        }
    }
}

/// A page gives for itself the first address that can be used.
pub proof fn pages_give_their_first_address(v: Seq<JsonV>, i: int)
    requires
        0 <= i <= v.len(),
    ensures
        ({
            let shown = parse::first_url(v, i);
            ||| shown is None && forall|k: int| i <= k < v.len() ==> parse::url_in((#[trigger] v[k]).get("href"@)) is None
            ||| exists|k: int|
                i <= k < v.len() && shown is Some && parse::url_in((#[trigger] v[k]).get("href"@)) == shown && forall|j: int|
                    i <= j < k ==> parse::url_in((#[trigger] v[j]).get("href"@)) is None
        }),
    decreases v.len() - i,
{
    if i < v.len() && parse::url_in((v[i]).get("href"@)) is None {
        pages_give_their_first_address(v, i + 1);
        let shown = parse::first_url(v, i + 1);
        if shown is Some {
            let k = choose|k: int|
                i < k < v.len() && parse::url_in((#[trigger] v[k]).get("href"@)) == shown && forall|j: int|
                    i < j < k ==> parse::url_in((#[trigger] v[j]).get("href"@)) is None;
            assert(forall|j: int| i <= j < k ==> parse::url_in((#[trigger] v[j]).get("href"@)) is None);
        }
    }
}

/// The number of reviews is that of the first text that tells of one.
pub proof fn scores_count_by_their_first_text(v: Seq<Seq<char>>, i: int)
    requires
        0 <= i <= v.len(),
    ensures
        ({
            let shown = parse::first_review_count(v, i);
            ||| shown is None && forall|k: int| i <= k < v.len() ==> parse::review_count_in(#[trigger] v[k]) is None
            ||| exists|k: int|
                i <= k < v.len() && shown is Some && parse::review_count_in(#[trigger] v[k]) == shown && forall|j: int|
                    i <= j < k ==> parse::review_count_in(#[trigger] v[j]) is None
        }),
    decreases v.len() - i,
{
    if i < v.len() && parse::review_count_in(v[i]) is None {
        scores_count_by_their_first_text(v, i + 1);
        let shown = parse::first_review_count(v, i + 1);
        if shown is Some {
            let k = choose|k: int|
                i < k < v.len() && parse::review_count_in(#[trigger] v[k]) == shown && forall|j: int|
                    i < j < k ==> parse::review_count_in(#[trigger] v[j]) is None;
            assert(forall|j: int| i <= j < k ==> parse::review_count_in(#[trigger] v[j]) is None);
        }
    }
}

/// A text counts reviews by the first place where it does.
pub proof fn texts_count_by_their_first_match(v: Seq<Seq<Option<Seq<char>>>>, i: int)
    requires
        0 <= i <= v.len(),
    ensures
        ({
            let shown = parse::first_count(v, i);
            ||| shown is None && forall|k: int| i <= k < v.len() ==> parse::matched_count(#[trigger] v[k]) is None
            ||| exists|k: int|
                i <= k < v.len() && shown is Some && parse::matched_count(#[trigger] v[k]) == shown && forall|j: int|
                    i <= j < k ==> parse::matched_count(#[trigger] v[j]) is None
        }),
    decreases v.len() - i,
{
    if i < v.len() && parse::matched_count(v[i]) is None {
        texts_count_by_their_first_match(v, i + 1);
        let shown = parse::first_count(v, i + 1);
        if shown is Some {
            let k = choose|k: int|
                i < k < v.len() && parse::matched_count(#[trigger] v[k]) == shown && forall|j: int|
                    i < j < k ==> parse::matched_count(#[trigger] v[j]) is None;
            assert(forall|j: int| i <= j < k ==> parse::matched_count(#[trigger] v[j]) is None);
        }
    }
}

/// The duty of a page is that of the first state that tells of one.
pub proof fn duties_are_those_of_the_first_state(v: Seq<JsonV>, i: int)
    requires
        0 <= i <= v.len(),
    ensures
        ({
            let shown = parse::first_duty(v, i);
            ||| shown is None && forall|k: int| i <= k < v.len() ==> parse::state_duty(parse::strings_in(#[trigger] v[k])) is None
            ||| exists|k: int|
                i <= k < v.len() && shown is Some && parse::state_duty(parse::strings_in(#[trigger] v[k])) == shown && forall|j: int|
                    i <= j < k ==> parse::state_duty(parse::strings_in(#[trigger] v[j])) is None
        }),
    decreases v.len() - i,
{
    if i < v.len() && parse::state_duty(parse::strings_in(v[i])) is None {
        duties_are_those_of_the_first_state(v, i + 1);
        let shown = parse::first_duty(v, i + 1);
        if shown is Some {
            let k = choose|k: int|
                i < k < v.len() && parse::state_duty(parse::strings_in(#[trigger] v[k])) == shown && forall|j: int|
                    i < j < k ==> parse::state_duty(parse::strings_in(#[trigger] v[j])) is None;
            assert(forall|j: int| i <= j < k ==> parse::state_duty(parse::strings_in(#[trigger] v[j])) is None);
        }
    }
}

/// The brand of a tile is that of the first list that names one.
pub proof fn brands_are_those_of_the_first_list(v: Seq<JsonV>, i: int)
    requires
        0 <= i <= v.len(),
    ensures
        ({
            let shown = parse::brand_of(v, i);
            ||| shown is None && forall|k: int| i <= k < v.len() ==> parse::brand_in((#[trigger] v[k]).field("labelListV2"@)) is None
            ||| exists|k: int|
                i <= k < v.len() && shown is Some && parse::brand_in((#[trigger] v[k]).field("labelListV2"@)) == shown && forall|j: int|
                    i <= j < k ==> parse::brand_in((#[trigger] v[j]).field("labelListV2"@)) is None
        }),
    decreases v.len() - i,
{
    if i < v.len() && parse::brand_in((v[i]).field("labelListV2"@)) is None {
        brands_are_those_of_the_first_list(v, i + 1);
        let shown = parse::brand_of(v, i + 1);
        if shown is Some {
            let k = choose|k: int|
                i < k < v.len() && parse::brand_in((#[trigger] v[k]).field("labelListV2"@)) == shown && forall|j: int|
                    i < j < k ==> parse::brand_in((#[trigger] v[j]).field("labelListV2"@)) is None;
            assert(forall|j: int| i <= j < k ==> parse::brand_in((#[trigger] v[j]).field("labelListV2"@)) is None);
        }
    }
}

/// The former price of a tile is above its present price, and both are those that the block
/// shows under their own styles.
pub proof fn tiles_show_their_prices(item: JsonV)
    ensures
        parse::search_item(item) matches Some(shown) ==> {
            let block = parse::price_block_in(
                parse::objects_of(item.field("mainState"@).elements()),
                0,
            );
            let now = parse::styled_price(block, "PRICE"@);
            let before = parse::styled_price(block, "ORIGINAL_PRICE"@);
            &&& shown.price == now
            &&& shown.old_price is Some <==> now is Some && before is Some && double::order(
                before->Some_0.0,
            ) > double::order(now->Some_0.0)
            &&& shown.old_price is Some ==> shown.old_price == before
            &&& shown.currency == "RUB"@
            &&& shown.price_type == PriceType::OzonCard <==> block is Some && parse::says(
                block->Some_0.field("priceStyle"@),
                "styleType"@,
                "CARD_PRICE"@,
            )
            &&& shown.price_label is Some <==> shown.price_type == PriceType::OzonCard
            &&& shown.price_label matches Some(s) ==> s == "Цена с Ozon Картой"@
            &&& block is None ==> shown.price is None && shown.discount is None
            &&& block matches Some(b) ==> shown.discount == parse::discount_in(b.get("discount"@))
            &&& shown.matches_price_range is None
        },
{
}

/// A discount is shown as it is written, without white space around it.
pub proof fn discounts_are_shown_as_written(v: JsonV)
    ensures
        parse::discount_in(None) is None,
        v matches JsonV::Text(s) ==> {
            &&& text::trimmed(s).len() > 0 ==> parse::discount_in(Some(v)) == Some(
                DiscountV::Text(text::trimmed(s)),
            )
            &&& text::trimmed(s).len() == 0 ==> parse::discount_in(Some(v)) is None
        },
        v matches JsonV::Number(n) ==> parse::discount_in(Some(v)) == Some(DiscountV::Number(n)),
        v !is Text && v !is Number ==> parse::discount_in(Some(v)) is None,
{
}

/// A tile names its product by its own article, else by its identifier, else by its link, and a
/// tile without an article is no product.
pub proof fn tiles_show_their_product(item: JsonV)
    ensures
        ({
            let own = parse::sku_in(item.get("sku"@));
            let other = parse::sku_in(item.get("id"@));
            let url = parse::url_in(item.field("action"@).get("link"@));
            let linked = match url {
                Some(u) => parse::sku_in_link(u),
                None => None,
            };
            let states = parse::objects_of(item.field("mainState"@).elements());
            let labels = parse::star_labels(states, 0);
            &&& parse::search_item(item) is Some <==> item is Object && (own is Some || other is Some
                || linked is Some)
            &&& parse::search_item(item) matches Some(shown) ==> {
                &&& own is Some ==> own == Some(shown.sku)
                &&& own is None && other is Some ==> other == Some(shown.sku)
                &&& own is None && other is None ==> linked == Some(shown.sku)
                &&& shown.url == url
                &&& shown.image == parse::tile_image_in(item)
                &&& shown.brand == parse::brand_of(states, 0)
                &&& shown.seller is None
                &&& labels.len() == 0 ==> shown.rating is None
                &&& labels.len() > 0 ==> shown.rating == parse::rating_of(JsonV::Text(labels[0]))
                &&& labels.len() <= 1 ==> shown.reviews is None
                &&& labels.len() > 1 && parse::review_count_in(labels[1]) is Some
                    ==> shown.reviews == parse::review_count_in(labels[1])
                &&& labels.len() > 1 && parse::review_count_in(labels[1]) is None
                    ==> shown.reviews == parse::count_in(Some(JsonV::Text(labels[1])))
                &&& match parse::first_saying(states, "id"@, "name"@, 0) {
                    Some(state) => shown.name == parse::text_in(state.get("textDS"@)),
                    None => shown.name is None,
                }
            }
        }),
{
}

/// A tile shows the first image of its items, and its cover only where these have none.
pub proof fn covers_stand_in_for_images(item: JsonV)
    ensures
        ({
            let tile = item.field("tileImage"@);
            let first = parse::first_image(tile.field("items"@).elements(), 0);
            &&& first is Some ==> parse::tile_image_in(item) == first
            &&& first is None ==> parse::tile_image_in(item) == parse::image_in(
                tile.get("coverImage"@),
            )
        }),
{
}

/// The label of the delivery is that of the button, and no longer than a label may be.
pub proof fn delivery_labels_are_short(item: JsonV)
    ensures
        ({
            let title = parse::words_of(
                item.field("multiButton"@).field("ozonButton"@).field("addToCart"@).field(
                    "actionButton"@,
                ).field("title"@),
            );
            let shown = parse::delivery_label_in(item);
            &&& shown is Some <==> title is Some && title->Some_0.len() <= 120
            &&& shown is Some ==> shown == title
            &&& parse::search_item(item) matches Some(p) ==> p.delivery_label == shown
        }),
{
}

/// The first entry that says what is looked for is found, if there is one.
pub proof fn entries_are_found_by_what_they_say(
    v: Seq<JsonV>,
    key: Seq<char>,
    value: Seq<char>,
    i: int,
)
    requires
        0 <= i <= v.len(),
    ensures
        ({
            let shown = parse::first_saying(v, key, value, i);
            ||| shown is None && forall|k: int|
                i <= k < v.len() ==> (#[trigger] v[k]).field(key) != JsonV::Text(value)
            ||| exists|k: int|
                i <= k < v.len() && shown == Some(#[trigger] v[k]) && v[k].field(key) == JsonV::Text(
                    value,
                ) && forall|j: int| i <= j < k ==> (#[trigger] v[j]).field(key) != JsonV::Text(value)
        }),
    decreases v.len() - i,
{
    if i < v.len() && !parse::says(v[i], key, value) {
        entries_are_found_by_what_they_say(v, key, value, i + 1);
        let shown = parse::first_saying(v, key, value, i + 1);
        if shown is Some {
            let k = choose|k: int|
                i < k < v.len() && shown == Some(#[trigger] v[k]) && v[k].field(key)
                    == JsonV::Text(value) && forall|j: int|
                    i < j < k ==> (#[trigger] v[j]).field(key) != JsonV::Text(value);
            assert(forall|j: int| i <= j < k ==> (#[trigger] v[j]).field(key) != JsonV::Text(value));
        }
    }
}

/// A seller is named by the cell, else by the title, is rated by the most exact rating that the
/// state gives, and is linked to by the cell.
pub proof fn sellers_are_read_from_their_cell(state: JsonV)
    ensures
        ({
            let cell = parse::text_in(state.field("sellerCell"@).field("centerBlock"@).get("title"@));
            let title = parse::text_in(state.get("title"@));
            let exact = parse::rating_in(state.field("rating"@).field("title"@).get("text"@));
            let titled = parse::rating_in(state.field("rating"@).get("title"@));
            let shown = parse::seller_in(state);
            &&& shown is Some <==> cell is Some || title is Some
            &&& shown matches Some(seller) ==> {
                &&& cell is Some ==> cell == Some(seller.name)
                &&& cell is None ==> title == Some(seller.name)
                &&& exact is Some ==> seller.rating == exact
                &&& exact is None && titled is Some ==> seller.rating == titled
                &&& exact is None && titled is None ==> seller.rating == parse::rating_in(
                    state.get("rating"@),
                )
                &&& seller.url == parse::url_in(
                    state.field("sellerCell"@).field("common"@).field("action"@).get("link"@),
                )
            }
        }),
{
}

/// A product costs what its card price says, else its price. The price without the card and the
/// former price are shown beside it, each from its own place.
pub proof fn products_show_their_prices(page: JsonV, page2: Option<JsonV>)
    ensures
        ({
            let shown = parse::details_of(page, page2);
            let block = widgets::first_with(
                widgets::states_of(page, "webPrice"@),
                seq!["cardPrice"@, "price"@, "originalPrice"@, "isAvailable"@],
                0,
            );
            let card = parse::price_in(parse::member_in(block, "cardPrice"@));
            let plain = parse::price_in(parse::member_in(block, "price"@));
            &&& card is Some ==> shown.price == card
            &&& card is None ==> shown.price == plain
            &&& shown.price_regular == plain
            &&& shown.old_price == parse::price_in(parse::member_in(block, "originalPrice"@))
            &&& block matches Some(b) ==> match b.field("isAvailable"@) {
                JsonV::Bool(x) => shown.available == Some(x),
                _ => shown.available is None,
            }
            &&& block is None ==> shown.price is None && shown.price_regular is None
                && shown.old_price is None && shown.available is None
        }),
{
}

/// A product is named by its gallery's article, else by that of the page's own tracking, else by
/// that of its address. Where the page gives no address, one is made of the article.
pub proof fn products_are_named_by_their_page(page: JsonV, page2: Option<JsonV>)
    ensures
        ({
            let shown = parse::details_of(page, page2);
            let gallery = widgets::first_with(
                widgets::states_of(page, "webGallery"@),
                seq!["sku"@, "coverImage"@, "images"@],
                0,
            );
            let heading = widgets::first_with(
                widgets::states_of(page, "webProductHeading"@),
                seq!["title"@],
                0,
            );
            let url = parse::seo_url_of(page);
            let own = parse::sku_in(parse::member_in(gallery, "sku"@));
            let title = parse::text_in(parse::member_in(heading, "title"@));
            &&& own is Some ==> shown.sku == own
            &&& own is None && page.get("layoutTrackingInfo"@) is None && url is None
                ==> shown.sku is None
            &&& own is None && page.get("layoutTrackingInfo"@) is None && url is Some
                ==> shown.sku == parse::sku_in_link(url->Some_0)
            &&& title is Some ==> shown.name == title
            &&& title is None ==> shown.name == parse::words_of(page.field("seo"@).field("title"@))
            &&& url is Some ==> shown.url == url
            &&& url is None && shown.sku is None ==> shown.url is None
            &&& url is None && shown.sku is Some ==> shown.url == Some(
                "https://www.ozon.ru/product/"@ + shown.sku->Some_0 + "/"@,
            )
            &&& shown.rating == parse::product_score(page).0
            &&& shown.reviews == parse::product_score(page).1
            &&& shown.seller == parse::seller_of(page)
            &&& shown.characteristics == parse::short_characteristics(page)
            &&& shown.images == parse::product_images(gallery)
            &&& shown.warnings.len() == 0
        }),
{
}

/// A duty comes on top of the price: the total is the sum of both, where there is a price and a
/// finite amount. What the first half of the page says of it goes before what the second says.
pub proof fn duties_come_on_top_of_the_price(page: JsonV, page2: Option<JsonV>)
    ensures
        ({
            let shown = parse::details_of(page, page2);
            let first = parse::duty_of(page);
            let amount = if first is Some {
                first
            } else if page2 is Some {
                parse::duty_of(page2->Some_0)
            } else {
                None
            };
            &&& shown.duty is Some <==> amount is Some
            &&& shown.duty matches Some(duty) ==> {
                &&& amount == Some(duty.amount)
                &&& duty.note == "пошлина не входит в цену"@
                &&& shown.price is None ==> duty.total is None
                &&& shown.price is Some && double::is_finite(duty.amount.0) ==> duty.total
                    == double::real_sum(shown.price->Some_0, duty.amount)
            }
        }),
{
}

proof fn lemma_united_contains(a: Seq<Seq<char>>, b: Seq<Seq<char>>, x: Seq<char>)
    ensures
        text::united(a, b).contains(x) <==> a.contains(x) || b.contains(x),
        a.len() <= text::united(a, b).len(),
        text::united(a, b).take(a.len() as int) == a,
    decreases b.len(),
{
    if b.len() == 0 {
        assert(a.take(a.len() as int) =~= a);
    } else {
        let before = b.drop_last();
        lemma_united_contains(a, before, x);
        lemma_united_contains(a, before, b.last());
        let rest = text::united(a, before);
        let all = text::united(a, b);
        assert(before.push(b.last()) =~= b);
        assert(b.contains(x) <==> before.contains(x) || x == b.last()) by {
            if b.contains(x) {
                let i = choose|i: int| 0 <= i < b.len() && b[i] == x;
                if i < before.len() {
                    assert(before[i] == x);
                }
            }
            if before.contains(x) {
                let i = choose|i: int| 0 <= i < before.len() && before[i] == x;
                assert(b[i] == x);
            }
            assert(b[b.len() - 1] == b.last());
        }
        if !rest.contains(b.last()) {
            assert(all == rest.push(b.last()));
            assert(all.take(a.len() as int) =~= rest.take(a.len() as int));
            assert(all[rest.len() as int] == b.last());
            if rest.contains(x) {
                let i = choose|i: int| 0 <= i < rest.len() && rest[i] == x;
                assert(all[i] == x);
            }
            if all.contains(x) {
                let i = choose|i: int| 0 <= i < all.len() && all[i] == x;
                if i < rest.len() {
                    assert(rest[i] == x);
                }
            }
        }
    }
}

/// A second page adds to a description: the text of the first stays where it has one, and no
/// image of either is lost.
pub proof fn second_pages_add_to_the_description(
    first: DescriptionV,
    second: DescriptionV,
    image: Seq<char>,
)
    ensures
        ({
            let shown = parse::supplemented(first, Some(second));
            &&& first.text.len() > 0 ==> shown.text == first.text
            &&& first.text.len() == 0 ==> shown.text == second.text
            &&& shown.images.contains(image) <==> first.images.contains(image)
                || second.images.contains(image)
            &&& first.images.is_prefix_of(shown.images)
            &&& parse::supplemented(first, None) == first
        }),
{
    lemma_united_contains(first.images, second.images, image);
    let all = text::united(first.images, second.images);
    assert(all.take(first.images.len() as int) == first.images);
    assert(first.images.is_prefix_of(all));
}

/// The description of a product is that of its page, with what the second page adds.
pub proof fn descriptions_are_those_of_both_pages(page: JsonV, more: JsonV)
    ensures
        parse::details_of(page, None).description == parse::description_of(page),
        parse::details_of(page, Some(more)).description == parse::supplemented(
            parse::description_of(page),
            Some(parse::description_of(more)),
        ),
{
}

/// A gallery shows the cover first, and every image of the product up to ten.
pub proof fn galleries_start_with_the_cover(gallery: JsonV, image: Seq<char>)
    ensures
        ({
            let shown = parse::product_images(Some(gallery));
            let cover = parse::image_in(gallery.get("coverImage"@));
            let entries = parse::gallery_images(gallery.field("images"@).elements());
            &&& cover is Some ==> shown.len() > 0 && shown[0] == cover->Some_0
            &&& shown.contains(image) ==> cover == Some(image) || entries.contains(image)
            &&& shown.len() < 10 && (cover == Some(image) || entries.contains(image))
                ==> shown.contains(image)
        }),
{
    let shown = parse::product_images(Some(gallery));
    let cover = parse::image_in(gallery.get("coverImage"@));
    let entries = parse::gallery_images(gallery.field("images"@).elements());
    let row = if cover is Some {
        seq![cover->Some_0]
    } else {
        Seq::<Seq<char>>::empty()
    };
    let all = text::distinct(row + entries);
    lemma_united_contains(Seq::empty(), row + entries, image);
    lemma_united_split(Seq::empty(), row, entries);
    let head = text::united(Seq::empty(), row);
    lemma_united_contains(head, entries, image);
    assert((row + entries).contains(image) <==> row.contains(image) || entries.contains(image)) by {
        let both = row + entries;
        if both.contains(image) {
            let i = choose|i: int| 0 <= i < both.len() && both[i] == image;
            if i < row.len() {
                assert(row[i] == image);
            } else {
                assert(entries[i - row.len()] == image);
            }
        }
        if row.contains(image) {
            let i = choose|i: int| 0 <= i < row.len() && row[i] == image;
            assert(both[i] == image);
        }
        if entries.contains(image) {
            let i = choose|i: int| 0 <= i < entries.len() && entries[i] == image;
            assert(both[row.len() + i] == image);
        }
    }
    if cover is Some {
        assert(row[0] == cover->Some_0);
        assert(row.drop_last() =~= Seq::<Seq<char>>::empty());
        assert(text::united(Seq::empty(), row.drop_last()) =~= Seq::<Seq<char>>::empty());
        assert(head =~= seq![cover->Some_0]);
        assert(all.take(1)[0] == head[0]);
        if cover == Some(image) {
            assert(row.contains(image));
        }
        if row.contains(image) {
            let i = choose|i: int| 0 <= i < row.len() && row[i] == image;
            assert(image == cover->Some_0);
        }
    }
    if shown.contains(image) {
        let i = choose|i: int| 0 <= i < shown.len() && shown[i] == image;
        assert(all[i] == image);
    }
}

proof fn lemma_united_split(a: Seq<Seq<char>>, b: Seq<Seq<char>>, c: Seq<Seq<char>>)
    ensures
        text::united(a, b + c) == text::united(text::united(a, b), c),
    decreases c.len(),
{
    if c.len() == 0 {
        assert(b + c =~= b);
    } else {
        lemma_united_split(a, b, c.drop_last());
        assert((b + c).drop_last() =~= b + c.drop_last());
    }
}

/// Rows of characteristics show a value under each title: what a row says is shown, and what
/// other rows say stays unless the row has the same title.
pub proof fn characteristics_are_shown_by_title(out: JsonV, row: JsonV, other: Seq<char>)
    requires
        out is Object,
    ensures
        ({
            let shown = parse::with_characteristic(out, row);
            let title = row.get("title"@);
            let t = parse::first_rich_text(
                parse::member_in(title, "textRs"@),
                parse::member_in(title, "text"@),
                title,
            );
            let v = parse::first_rich_text(
                row.get("values"@),
                row.get("contentRS"@),
                row.get("valueRs"@),
            );
            &&& shown is Object
            &&& t is Some && v is Some ==> shown.get(t->Some_0) == Some(JsonV::Text(v->Some_0))
            &&& t is None || v is None ==> shown == out
            &&& t != Some(other) ==> shown.get(other) == out.get(other)
        }),
{
    broadcast use json::lemma_get_with;

}

/// The first of three texts that says something is taken.
pub proof fn texts_are_taken_in_order(a: Option<JsonV>, b: Option<JsonV>, c: Option<JsonV>)
    ensures
        ({
            let shown = parse::first_rich_text(a, b, c);
            let (x, y, z) = (parse::rich_text(a), parse::rich_text(b), parse::rich_text(c));
            &&& shown is None <==> x.len() == 0 && y.len() == 0 && z.len() == 0
            &&& shown matches Some(s) ==> s.len() > 0
            &&& x.len() > 0 ==> shown == Some(x)
            &&& x.len() == 0 && y.len() > 0 ==> shown == Some(y)
            &&& x.len() == 0 && y.len() == 0 && z.len() > 0 ==> shown == Some(z)
        }),
{
}

/// A row of values shows the words of each of them, in order.
pub proof fn rows_show_the_words_of_each_value(v: Seq<JsonV>, w: Seq<JsonV>, x: JsonV)
    ensures
        parse::row_texts(v + w) == parse::row_texts(v) + parse::row_texts(w),
        parse::text_in(Some(x)) matches Some(s) ==> parse::row_texts(seq![x]) == seq![s],
        parse::text_in(Some(x)) is None ==> parse::row_texts(seq![x]) == Seq::<Seq<char>>::empty(),
    decreases w.len(),
{
    assert(seq![x].drop_last() =~= Seq::<JsonV>::empty());
    assert(parse::row_texts(seq![x].drop_last()) =~= Seq::<Seq<char>>::empty());
    if parse::text_in(Some(x)) is Some {
        let s = parse::text_in(Some(x))->Some_0;
        assert(Seq::<Seq<char>>::empty().push(s) =~= seq![s]);
    }
    if w.len() == 0 {
        assert(v + w =~= v);
        assert(parse::row_texts(v) + parse::row_texts(w) =~= parse::row_texts(v));
    } else {
        rows_show_the_words_of_each_value(v, w.drop_last(), x);
        assert((v + w).drop_last() =~= v + w.drop_last());
        assert(parse::row_texts(v + w) =~= parse::row_texts(v) + parse::row_texts(w));
    }
}

/// A score shows the first rating and the first count of reviews that it holds.
pub proof fn scores_show_their_first_numbers(state: JsonV)
    ensures
        ({
            let a = parse::rating_in(state.get("rating"@));
            let b = parse::rating_in(state.get("ratingValue"@));
            let c = parse::rating_in(state.get("text"@));
            let shown = parse::score_rating(state);
            &&& a is Some ==> shown == a
            &&& a is None && b is Some ==> shown == b
            &&& a is None && b is None && c is Some ==> shown == c
            &&& a is None && b is None && c is None ==> shown == parse::rating_in(
                state.field("title"@).get("text"@),
            )
        }),
        ({
            let a = parse::any_count(state.get("reviews"@));
            let b = parse::any_count(state.get("reviewCount"@));
            let c = parse::any_count(state.get("reviewsCount"@));
            let d = parse::any_count(state.get("totalReviews"@));
            let shown = parse::score_reviews(state);
            &&& a is Some ==> shown == a
            &&& a is None && b is Some ==> shown == b
            &&& a is None && b is None && c is Some ==> shown == c
            &&& a is None && b is None && c is None && d is Some ==> shown == d
            &&& a is None && b is None && c is None && d is None
                ==> shown == parse::first_review_count(parse::strings_in(state), 0)
        }),
{
}

/// The score of a product is that of its own widget, else that of the reviews' widget.
pub proof fn scores_are_those_of_the_page(page: JsonV)
    ensures
        ({
            let own = parse::first_score(widgets::states_of(page, "webSingleProductScore"@), 0);
            let other = parse::first_score(widgets::states_of(page, "webReviewProductScore"@), 0);
            let shown = parse::product_score(page);
            &&& own matches Some(s) ==> shown.0 == parse::score_rating(s) && shown.1
                == parse::score_reviews(s)
            &&& own is None && other is Some ==> shown.0 == parse::score_rating(other->Some_0)
                && shown.1 == parse::score_reviews(other->Some_0)
            &&& own is None && other is None ==> shown.0 is None && shown.1 is None
        }),
{
}

/// A description is read from the tree of a state, and from its HTML only where the tree has
/// nothing to show.
pub proof fn trees_go_before_html(state: JsonV)
    ensures
        ({
            let root = parse::rich_root(state);
            let html = state.field("richAnnotation"@);
            &&& root is Some && parse::walked_texts(root->Some_0).len() > 0 ==> parse::state_texts(
                state,
            ) == parse::walked_texts(root->Some_0)
            &&& root is Some && parse::walked_images(root->Some_0).len() > 0
                ==> parse::state_images(state) == parse::walked_images(root->Some_0)
            &&& root is None && html is Text && parse::html_words(html->Text_0).len() > 0
                ==> parse::state_texts(state) == seq![parse::html_words(html->Text_0)]
            &&& root is None && html is Text ==> parse::state_images(state) == parse::html_images(
                html->Text_0,
            )
            &&& root is None && html !is Text ==> parse::state_texts(state).len() == 0
                && parse::state_images(state).len() == 0
        }),
{
}

/// A duty is read only where a text speaks of one, and from such a text before all others.
pub proof fn duties_are_spoken_of(v: Seq<Seq<char>>)
    ensures
        parse::state_duty(v) is Some ==> exists|i: int|
            0 <= i < v.len() && pattern::pattern_occurs(
                parse::duty_marker_pattern(),
                #[trigger] v[i],
            ),
        parse::marked_amount(v, 0) is Some ==> parse::state_duty(v) == parse::marked_amount(v, 0),
        parse::state_duty(v) matches Some(x) ==> double::order(x.0) >= 0,
{
    lemma_marked(v, 0);
}

proof fn lemma_marked(v: Seq<Seq<char>>, i: int)
    requires
        0 <= i,
    ensures
        parse::marked_amount(v, i) matches Some(x) ==> parse::speaks_of_duty(v) && double::order(x.0)
            >= 0,
    decreases v.len() - i,
{
    if i < v.len() && !(pattern::pattern_occurs(parse::duty_marker_pattern(), v[i])
        && parse::amount_in(v[i]) is Some) {
        lemma_marked(v, i + 1);
    }
}

/// The brand of a list is the label just before the one that tells that the brand was checked.
pub proof fn brands_stand_before_their_mark(list: JsonV)
    ensures
        ({
            let labels = parse::labels_in(list.field("items"@).elements());
            parse::brand_in(list) matches Some(brand) ==> exists|i: int|
                0 <= i && i + 1 < labels.len() && #[trigger] labels[i] == brand
                    && pattern::pattern_occurs(parse::verified_brand_pattern(), labels[i + 1])
        }),
{
    let labels = parse::labels_in(list.field("items"@).elements());
    lemma_verified(labels, 0);
    if parse::brand_in(list) is Some {
        let i = parse::verified_place(labels, 0)->Some_0;
        assert(labels[i - 1] == parse::brand_in(list)->Some_0);
    }
}

proof fn lemma_verified(labels: Seq<Seq<char>>, i: int)
    requires
        0 <= i,
    ensures
        parse::verified_place(labels, i) matches Some(k) ==> i <= k < labels.len()
            && pattern::pattern_occurs(parse::verified_brand_pattern(), labels[k]),
    decreases labels.len() - i,
{
    if i < labels.len() && !pattern::pattern_occurs(parse::verified_brand_pattern(), labels[i]) {
        lemma_verified(labels, i + 1);
    }
}

/// A number within nought and five is a rating, and no other is.
pub proof fn ratings_lie_within_their_scale(x: (u64, Seq<char>))
    ensures
        parse::as_rating(Some(x)) is Some <==> 0 <= double::order(x.0) <= double::order(double::FIVE),
        parse::as_rating(Some(x)) is Some ==> parse::as_rating(Some(x)) == Some(x),
        parse::as_rating(None) is None,
{
}

/// A date is that of the seconds that the value shows, in milliseconds, and no other value than
/// a finite one from the epoch on has a date.
pub proof fn dates_are_those_of_their_seconds(v: Option<JsonV>)
    ensures
        parse::date_in(v) is Some ==> {
            &&& parse::seconds_in(v) is Some
            &&& double::is_finite(parse::seconds_in(v)->Some_0)
            &&& double::order(parse::seconds_in(v)->Some_0) >= 0
            &&& parse::date_in(v) == parse::date_at(
                double::scaled_part(
                    double::order(parse::seconds_in(v)->Some_0) as u64,
                    1000,
                ) as i64,
            )
        },
{
}

} // verus!
