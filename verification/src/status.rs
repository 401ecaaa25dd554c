//! The status lines shown to the user when hosting or joining a room.

use vstd::prelude::*;
use vstd::string::*;

verus! {

/// The status line of a joiner on its way to `room_id`.
pub fn join_status(room_id: &str) -> (r: String)
    ensures
        r@ == "Joiner для комнаты "@ + room_id@ + " в пути..."@,
{
    let mut s = String::from_str("Joiner для комнаты ");
    s.append(room_id);
    s.append(" в пути...");
    s
}

/// The status line of a host that started in `room_id`.
pub fn host_status(room_id: &str) -> (r: String)
    ensures
        r@ == "✅ Хост запущен в комнате "@ + room_id@,
{
    let mut s = String::from_str("✅ Хост запущен в комнате ");
    s.append(room_id);
    s
}

} // verus!
