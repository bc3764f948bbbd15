use vstd::prelude::*;

use crate::favorites::{Favorite, FavoriteRow};
use crate::time::shows_time;

verus! {

/// A favourite tells its number, who it is from and the chat that it is from, as its row does.
pub proof fn law_favorite_origin(f: Favorite, row: FavoriteRow)
    requires
        f.tells(row),
    ensures
        f.id == row.local_id,
        f.type_num == row.fav_type,
        f.from@ == row.fromusr@,
        f.chat@ == row.chatname@,
{
}

/// What the types of favourites are called.
pub proof fn law_favorite_kind(f: Favorite, row: FavoriteRow)
    requires
        f.tells(row),
    ensures
        row.fav_type == 1 ==> f.kind@ == "文本"@,
        row.fav_type == 2 ==> f.kind@ == "图片"@,
        row.fav_type == 5 ==> f.kind@ == "文章"@,
        row.fav_type == 19 ==> f.kind@ == "名片"@,
        row.fav_type == 20 ==> f.kind@ == "视频"@,
        row.fav_type != 1 && row.fav_type != 2 && row.fav_type != 5 && row.fav_type != 19
            && row.fav_type != 20 ==> f.kind@ == "其他"@,
{
}

/// A time of more than ten digits is in milliseconds; the time that is shown is in seconds.
pub proof fn law_favorite_time(f: Favorite, row: FavoriteRow)
    requires
        f.tells(row),
    ensures
        row.update_time < 10_000_000_000 ==> f.timestamp == row.update_time,
        row.update_time >= 10_000_000_000 ==> 1000 * f.timestamp <= row.update_time < 1000
            * f.timestamp + 1000,
        shows_time(f.timestamp, "%Y-%m-%d %H:%M"@, f.time@),
{
}

/// A hundred characters of a favourite are shown, with dots where there are more.
pub proof fn law_favorite_preview(f: Favorite, row: FavoriteRow)
    requires
        f.tells(row),
    ensures
        row.content@.len() <= 100 ==> f.preview@ == row.content@,
        row.content@.len() > 100 ==> f.preview@ == row.content@.take(100) + "..."@,
{
}

} // verus!
