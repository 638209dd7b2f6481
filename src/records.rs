//! The records and replies of the user, board and dataset endpoints.
use crate::value::Cell;
use vstd::prelude::*;

verus! {

#[derive(Clone, Debug, PartialEq)]
pub struct User {
    pub id: Option<String>,
    pub name: String,
}

#[derive(Clone, Debug, PartialEq)]
pub struct Board {
    pub id: Option<String>,
    pub name: String,
    pub user_id: Option<String>,
}

#[derive(Clone, Debug, PartialEq)]
pub struct Dataset {
    pub id: Option<String>,
    pub name: String,
    pub board_id: Option<String>,
}

#[derive(Clone, Debug, PartialEq)]
pub struct GenericResponse {
    pub status: String,
    pub message: String,
}

#[derive(Clone, Debug, PartialEq)]
pub struct UserResponse {
    pub status: String,
    pub data: User,
}

#[derive(Clone, Debug, PartialEq)]
pub struct BoardResponse {
    pub status: String,
    pub data: Board,
}

#[derive(Clone, Debug, PartialEq)]
pub struct DatasetResponse {
    pub status: String,
    pub data: Dataset,
}

/// The body of a request to rename a column.
#[derive(Clone, Debug, PartialEq)]
pub struct RenameColumnRequestBody {
    pub new_column_name: String,
}

/// The body of a request to add a value to a column.
#[derive(Clone, Debug, PartialEq)]
pub struct AddDataRequestBody {
    pub data: Cell,
}

fn success() -> (r: String)
    ensures
        r@ == "success"@,
{
    "success".to_owned()
}

/// The reply to the creation of `user`: the user itself.
pub fn create_user(user: User) -> (r: UserResponse)
    ensures
        r.status@ == "success"@,
        r.data == user,
{
    UserResponse { status: success(), data: user }
}

/// The reply to a lookup of a user: a sample user under the fresh
/// identifier `new_id`.
pub fn get_user(new_id: String) -> (r: UserResponse)
    ensures
        r.status@ == "success"@,
        r.data.id == Some(new_id),
        r.data.name@ == "John Doe"@,
{
    UserResponse { status: success(), data: User { id: Some(new_id), name: "John Doe".to_owned() } }
}

/// The reply to an update of a user: the user as sent.
pub fn update_user(user: User) -> (r: UserResponse)
    ensures
        r.status@ == "success"@,
        r.data == user,
{
    UserResponse { status: success(), data: user }
}

pub fn delete_user() -> (r: GenericResponse)
    ensures
        r.status@ == "success"@,
        r.message@ == "User deleted"@,
{
    GenericResponse { status: success(), message: "User deleted".to_owned() }
}

/// The reply to the creation of `board`: the board itself.
pub fn create_board(board: Board) -> (r: BoardResponse)
    ensures
        r.status@ == "success"@,
        r.data == board,
{
    BoardResponse { status: success(), data: board }
}

/// The reply to a lookup of a board: a sample board under the fresh
/// identifiers `new_id` and `new_user_id`.
pub fn get_board(new_id: String, new_user_id: String) -> (r: BoardResponse)
    ensures
        r.status@ == "success"@,
        r.data.id == Some(new_id),
        r.data.user_id == Some(new_user_id),
        r.data.name@ == "My Board"@,
{
    BoardResponse {
        status: success(),
        data: Board { id: Some(new_id), name: "My Board".to_owned(), user_id: Some(new_user_id) },
    }
}

/// The reply to an update of a board: the board as sent.
pub fn update_board(board: Board) -> (r: BoardResponse)
    ensures
        r.status@ == "success"@,
        r.data == board,
{
    BoardResponse { status: success(), data: board }
}

pub fn delete_board() -> (r: GenericResponse)
    ensures
        r.status@ == "success"@,
        r.message@ == "Board deleted"@,
{
    GenericResponse { status: success(), message: "Board deleted".to_owned() }
}

/// The reply to the creation of `dataset`: the dataset itself.
pub fn create_dataset(dataset: Dataset) -> (r: DatasetResponse)
    ensures
        r.status@ == "success"@,
        r.data == dataset,
{
    DatasetResponse { status: success(), data: dataset }
}

/// The reply to a lookup of a dataset: a sample dataset under the fresh
/// identifiers `new_id` and `new_board_id`.
pub fn get_dataset(new_id: String, new_board_id: String) -> (r: DatasetResponse)
    ensures
        r.status@ == "success"@,
        r.data.id == Some(new_id),
        r.data.board_id == Some(new_board_id),
        r.data.name@ == "My Dataset"@,
{
    DatasetResponse {
        status: success(),
        data: Dataset { id: Some(new_id), name: "My Dataset".to_owned(), board_id: Some(new_board_id) },
    }
}

/// The reply to an update of a dataset: the dataset as sent.
pub fn update_dataset(dataset: Dataset) -> (r: DatasetResponse)
    ensures
        r.status@ == "success"@,
        r.data == dataset,
{
    DatasetResponse { status: success(), data: dataset }
}

pub fn delete_dataset() -> (r: GenericResponse)
    ensures
        r.status@ == "success"@,
        r.message@ == "Dataset deleted"@,
{
    GenericResponse { status: success(), message: "Dataset deleted".to_owned() }
}

} // verus!
