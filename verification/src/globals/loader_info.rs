//! The properties of a loader info object, as scripts read them.

use vstd::prelude::*;
use crate::class_object::ClassObject;
use crate::error::Error;
use crate::function::Executable;
use crate::interner::Interner;
use crate::loaderinfo_object::LoaderInfoObject;
use crate::loaderinfo_object::LoaderStream;
use crate::runtime::Runtime;
use crate::multiname::Multiname;
use crate::namespace::Namespace;
use crate::script_object::ScriptObject;
use crate::value::Atom;
use crate::value::ObjectId;
use crate::value::Value;

verus! {

/// The MIME type of a movie.
pub open spec fn content_type_text() -> Seq<char> {
    "application/x-shockwave-flash"@
}

/// What the receiver of a property read stands for: none where the receiver
/// is no loader info object, or one that stands for nothing.
pub open spec fn stream_of(this: Option<&LoaderInfoObject>) -> Option<LoaderStream> {
    match this {
        Some(o) => o.loaded_stream,
        None => None,
    }
}

fn stream(this: Option<&LoaderInfoObject>) -> (r: Option<LoaderStream>)
    ensures
        r == stream_of(this),
{
    match this {
        Some(o) => o.loaded_stream,
        None => None,
    }
}

/// The initializer of instances: the call of the superclass's initializer
/// that the interpreter has to make, if the defining class has a
/// superclass.
pub fn native_instance_init(rt: &Runtime, defining_class: ClassObject) -> (r: Option<Executable>)
    requires
        rt.wf(),
        rt.has_class(defining_class),
    ensures
        r == (match rt.classes@[defining_class.0 as int].superclass_object {
            Some(s) => Some(ClassObject::instance_initializer(rt, s)),
            None => None,
        }),
{
    proof {
        assert(rt.class_wf(defining_class.0 as int));
    }
    match defining_class.superclass_object(rt) {
        Some(s) => Some(s.call_native_init(rt)),
        None => None,
    }
}

/// The version of the script language of the movie: three or two. Fails
/// for a movie that has not loaded yet.
pub fn get_action_script_version(this: Option<&LoaderInfoObject>) -> (r: Result<Value, Error>)
    ensures
        r == (match stream_of(this) {
            Some(LoaderStream::NotYetLoaded(_, _, _)) => Err::<Value, Error>(
                Error::NotSufficientlyLoaded,
            ),
            Some(LoaderStream::Swf(movie, _)) => Ok::<Value, Error>(
                Value::Integer(
                    if movie.is_action_script_3 {
                        3i32
                    } else {
                        2i32
                    },
                ),
            ),
            None => Ok::<Value, Error>(Value::Undefined),
        }),
{
    match stream(this) {
        Some(LoaderStream::NotYetLoaded(_, _, _)) => Err(Error::NotSufficientlyLoaded),
        Some(LoaderStream::Swf(movie, _)) => {
            let version: i32 = if movie.is_action_script_3 {
                3
            } else {
                2
            };
            Ok(Value::Integer(version))
        },
        None => Ok(Value::Undefined),
    }
}

/// The domain of the movie: its object, or `null` where the movie has none
/// yet.
pub fn get_application_domain(this: Option<&LoaderInfoObject>) -> (r: Result<Value, Error>)
    ensures
        r == Ok::<Value, Error>(
            match stream_of(this) {
                Some(LoaderStream::NotYetLoaded(movie, _, _)) => match movie.avm2_domain {
                    Some(d) => Value::Object(d),
                    None => Value::Null,
                },
                Some(LoaderStream::Swf(movie, _)) => match movie.avm2_domain {
                    Some(d) => Value::Object(d),
                    None => Value::Null,
                },
                None => Value::Undefined,
            },
        ),
{
    match stream(this) {
        Some(LoaderStream::NotYetLoaded(movie, _, _)) => match movie.avm2_domain {
            Some(d) => Ok(Value::Object(d)),
            None => Ok(Value::Null),
        },
        Some(LoaderStream::Swf(movie, _)) => match movie.avm2_domain {
            Some(d) => Ok(Value::Object(d)),
            None => Ok(Value::Null),
        },
        None => Ok(Value::Undefined),
    }
}

/// The length of the movie as it is sent.
pub fn get_bytes_total(this: Option<&LoaderInfoObject>) -> (r: Result<Value, Error>)
    ensures
        r == Ok::<Value, Error>(
            match stream_of(this) {
                Some(LoaderStream::NotYetLoaded(movie, _, _)) => Value::Unsigned(movie.compressed_len),
                Some(LoaderStream::Swf(movie, _)) => Value::Unsigned(movie.compressed_len),
                None => Value::Undefined,
            },
        ),
{
    match stream(this) {
        Some(LoaderStream::NotYetLoaded(movie, _, _)) => Ok(Value::Unsigned(movie.compressed_len)),
        Some(LoaderStream::Swf(movie, _)) => Ok(Value::Unsigned(movie.compressed_len)),
        None => Ok(Value::Undefined),
    }
}

/// The bytes of the movie that have arrived: zero without a root, and for a
/// root that is no movie clip.
pub fn get_bytes_loaded(this: Option<&LoaderInfoObject>) -> (r: Result<Value, Error>)
    ensures
        r == Ok::<Value, Error>(
            match stream_of(this) {
                Some(LoaderStream::NotYetLoaded(_, None, _)) => Value::Unsigned(0),
                Some(LoaderStream::NotYetLoaded(_, Some(root), _)) => Value::Unsigned(
                    match root.movie_clip {
                        Some(mc) => mc.compressed_loaded_bytes,
                        None => 0u32,
                    },
                ),
                Some(LoaderStream::Swf(_, root)) => Value::Unsigned(
                    match root.movie_clip {
                        Some(mc) => mc.compressed_loaded_bytes,
                        None => 0u32,
                    },
                ),
                None => Value::Undefined,
            },
        ),
{
    match stream(this) {
        Some(LoaderStream::NotYetLoaded(_, None, _)) => Ok(Value::Unsigned(0)),
        Some(LoaderStream::NotYetLoaded(_, Some(root), _)) => match root.movie_clip {
            Some(mc) => Ok(Value::Unsigned(mc.compressed_loaded_bytes)),
            None => Ok(Value::Unsigned(0)),
        },
        Some(LoaderStream::Swf(_, root)) => match root.movie_clip {
            Some(mc) => Ok(Value::Unsigned(mc.compressed_loaded_bytes)),
            None => Ok(Value::Unsigned(0)),
        },
        None => Ok(Value::Undefined),
    }
}

/// The script object of the movie's root, or `null` without a root.
pub fn get_content(this: Option<&LoaderInfoObject>) -> (r: Result<Value, Error>)
    ensures
        r == Ok::<Value, Error>(
            match stream_of(this) {
                Some(LoaderStream::Swf(_, root)) => root.object2,
                Some(LoaderStream::NotYetLoaded(_, Some(root), _)) => root.object2,
                Some(LoaderStream::NotYetLoaded(_, None, _)) => Value::Null,
                None => Value::Undefined,
            },
        ),
{
    match stream(this) {
        Some(LoaderStream::Swf(_, root)) => Ok(root.object2),
        Some(LoaderStream::NotYetLoaded(_, Some(root), _)) => Ok(root.object2),
        Some(LoaderStream::NotYetLoaded(_, None, _)) => Ok(Value::Null),
        None => Ok(Value::Undefined),
    }
}

/// The MIME type of a loaded movie; `null` for one that has not loaded.
pub fn get_content_type(this: Option<&LoaderInfoObject>, interner: &mut Interner) -> (r: Result<
    Value,
    Error,
>)
    requires
        old(interner).wf(),
    ensures
        final(interner).wf(),
        old(interner).extended_by(final(interner)),
        match stream_of(this) {
            Some(LoaderStream::NotYetLoaded(_, _, _)) => r == Ok::<Value, Error>(Value::Null),
            Some(LoaderStream::Swf(_, _)) => match r {
                Ok(Value::String(a)) => final(interner).contains(a) && final(interner).text(a)
                    == content_type_text(),
                _ => false,
            },
            None => r == Ok::<Value, Error>(Value::Undefined),
        },
{
    match stream(this) {
        Some(LoaderStream::NotYetLoaded(_, _, _)) => Ok(Value::Null),
        Some(LoaderStream::Swf(_, _)) => {
            let a = interner.intern("application/x-shockwave-flash");
            Ok(Value::String(a))
        },
        None => Ok(Value::Undefined),
    }
}

/// Whether the URL of the movie is withheld: never.
pub fn get_is_url_inaccessible() -> (r: Result<Value, Error>)
    ensures
        r == Ok::<Value, Error>(Value::Bool(false)),
{
    Ok(Value::Bool(false))
}

fn loaded_only(this: Option<&LoaderInfoObject>, value: Value) -> (r: Result<Value, Error>)
    ensures
        r == loaded_or_insufficient(this, value),
{
    match stream(this) {
        Some(LoaderStream::NotYetLoaded(_, _, _)) => Err(Error::NotSufficientlyLoaded),
        Some(LoaderStream::Swf(_, _)) => Ok(value),
        None => Ok(Value::Undefined),
    }
}

/// `value` for a loaded movie; the failure of a movie that has not loaded
/// yet; `undefined` for a receiver that stands for nothing.
pub open spec fn loaded_or_insufficient(this: Option<&LoaderInfoObject>, value: Value) -> Result<
    Value,
    Error,
> {
    match stream_of(this) {
        Some(LoaderStream::NotYetLoaded(_, _, _)) => Err(Error::NotSufficientlyLoaded),
        Some(LoaderStream::Swf(_, _)) => Ok(value),
        None => Ok(Value::Undefined),
    }
}

/// Whether the movie and its loader are of one domain: `false` for every
/// loaded movie. Fails for a movie that has not loaded yet.
pub fn get_same_domain(this: Option<&LoaderInfoObject>) -> (r: Result<Value, Error>)
    ensures
        r == loaded_or_insufficient(this, Value::Bool(false)),
{
    loaded_only(this, Value::Bool(false))
}

/// Whether the movie lets its loader script it: `false` for every loaded
/// movie. Fails for a movie that has not loaded yet.
pub fn get_child_allows_parent(this: Option<&LoaderInfoObject>) -> (r: Result<Value, Error>)
    ensures
        r == loaded_or_insufficient(this, Value::Bool(false)),
{
    loaded_only(this, Value::Bool(false))
}

/// Whether the loader lets the movie script it: `false` for every loaded
/// movie. Fails for a movie that has not loaded yet.
pub fn get_parent_allows_child(this: Option<&LoaderInfoObject>) -> (r: Result<Value, Error>)
    ensures
        r == loaded_or_insufficient(this, Value::Bool(false)),
{
    loaded_only(this, Value::Bool(false))
}

/// The version of the movie's file format. Fails for a movie that has not
/// loaded yet.
pub fn get_swf_version(this: Option<&LoaderInfoObject>) -> (r: Result<Value, Error>)
    ensures
        r == (match stream_of(this) {
            Some(LoaderStream::NotYetLoaded(_, _, _)) => Err::<Value, Error>(
                Error::NotSufficientlyLoaded,
            ),
            Some(LoaderStream::Swf(movie, _)) => Ok::<Value, Error>(
                Value::Integer(movie.version as i32),
            ),
            None => Ok::<Value, Error>(Value::Undefined),
        }),
{
    match stream(this) {
        Some(LoaderStream::NotYetLoaded(_, _, _)) => Err(Error::NotSufficientlyLoaded),
        Some(LoaderStream::Swf(movie, _)) => Ok(Value::Integer(movie.version as i32)),
        None => Ok(Value::Undefined),
    }
}

/// The URL of the movie; `null` for a movie that has not loaded, unless it
/// is the stage's own.
pub fn get_url(this: Option<&LoaderInfoObject>) -> (r: Result<Value, Error>)
    ensures
        r == Ok::<Value, Error>(
            match stream_of(this) {
                Some(LoaderStream::NotYetLoaded(_, _, false)) => Value::Null,
                Some(LoaderStream::NotYetLoaded(movie, _, true)) => Value::String(movie.url),
                Some(LoaderStream::Swf(movie, _)) => Value::String(movie.url),
                None => Value::Undefined,
            },
        ),
{
    match stream(this) {
        Some(LoaderStream::NotYetLoaded(_, _, false)) => Ok(Value::Null),
        Some(LoaderStream::NotYetLoaded(movie, _, true)) => Ok(Value::String(movie.url)),
        Some(LoaderStream::Swf(movie, _)) => Ok(Value::String(movie.url)),
        None => Ok(Value::Undefined),
    }
}

/// The loader that made the object, or `null`.
pub fn get_loader(this: Option<&LoaderInfoObject>) -> (r: Result<Value, Error>)
    ensures
        r == Ok::<Value, Error>(
            match this {
                Some(o) => match o.loader {
                    Some(l) => Value::Object(l),
                    None => Value::Null,
                },
                None => Value::Undefined,
            },
        ),
{
    match this {
        Some(o) => match o.loader() {
            Some(l) => Ok(Value::Object(l)),
            None => Ok(Value::Null),
        },
        None => Ok(Value::Undefined),
    }
}

/// The URL of the movie that loaded this one, or this movie's own URL where
/// that is not known.
pub fn get_loader_url(this: Option<&LoaderInfoObject>) -> (r: Result<Value, Error>)
    ensures
        r == Ok::<Value, Error>(
            match stream_of(this) {
                Some(LoaderStream::NotYetLoaded(movie, _, _)) => Value::String(
                    loader_url_of(movie.loader_url, movie.url),
                ),
                Some(LoaderStream::Swf(movie, _)) => Value::String(
                    loader_url_of(movie.loader_url, movie.url),
                ),
                None => Value::Undefined,
            },
        ),
{
    let movie = match stream(this) {
        Some(LoaderStream::NotYetLoaded(movie, _, _)) => movie,
        Some(LoaderStream::Swf(movie, _)) => movie,
        None => {
            return Ok(Value::Undefined);
        },
    };
    match movie.loader_url {
        Some(u) => Ok(Value::String(u)),
        None => Ok(Value::String(movie.url)),
    }
}

/// The loader's URL, or else the movie's own.
pub open spec fn loader_url_of(loader_url: Option<Atom>, url: Atom) -> Atom {
    match loader_url {
        Some(u) => u,
        None => url,
    }
}

/// The dispatcher of the events that cross security boundaries.
pub fn get_shared_events(this: Option<&LoaderInfoObject>) -> (r: Result<Value, Error>)
    ensures
        r == Ok::<Value, Error>(
            match this {
                Some(o) => Value::Object(o.shared_events),
                None => Value::Undefined,
            },
        ),
{
    match this {
        Some(o) => Ok(Value::Object(o.shared_events())),
        None => Ok(Value::Undefined),
    }
}

/// The dispatcher of the events for uncaught errors.
pub fn get_uncaught_error_events(this: Option<&LoaderInfoObject>) -> (r: Result<Value, Error>)
    ensures
        r == Ok::<Value, Error>(
            match this {
                Some(o) => Value::Object(o.uncaught_error_events),
                None => Value::Undefined,
            },
        ),
{
    match this {
        Some(o) => Ok(Value::Object(o.uncaught_error_events())),
        None => Ok(Value::Undefined),
    }
}

/// One parameter of a movie: a name and a value, both strings.
#[derive(Clone, Copy, Debug, PartialEq, Eq, Structural)]
pub struct Parameter {
    pub name: Atom,
    pub value: Atom,
}

/// The dynamic properties of the object of the parameters `parameters`:
/// each name with its value, a later value in place of an earlier one of the
/// same name.
pub open spec fn parameter_values(parameters: Seq<Parameter>) -> Map<Atom, Value>
    decreases parameters.len(),
{
    if parameters.len() == 0 {
        Map::empty()
    } else {
        parameter_values(parameters.drop_last()).insert(
            parameters.last().name,
            Value::String(parameters.last().value),
        )
    }
}

/// The parameters of the movie, as a new object that has each parameter as
/// a dynamic property; `undefined` for a receiver that stands for nothing,
/// for which no object is made. The object is an instance of the root class
/// where the runtime has one, which must not be sealed.
pub fn get_parameters(
    rt: &mut Runtime,
    this: Option<&LoaderInfoObject>,
    parameters: &Vec<Parameter>,
) -> (r: Result<Value, Error>)
    requires
        old(rt).wf(),
        old(rt).system.object matches Some(c) ==> !old(rt).definition_of(c).is_sealed,
    ensures
        final(rt).wf(),
        match stream_of(this) {
            Some(_) => {
                &&& r == Ok::<Value, Error>(Value::Object(old(rt).objects.len()))
                &&& final(rt).grown_from(old(rt))
                &&& final(rt).objects@.len() == old(rt).objects@.len() + 1
                &&& final(rt).objects@.last().base.values@ == parameter_values(parameters@)
                &&& final(rt).objects@.last().base.instance_of == old(rt).system.object
            },
            None => r == Ok::<Value, Error>(Value::Undefined) && *final(rt) == *old(rt),
        },
{
    if stream(this).is_none() {
        return Ok(Value::Undefined);
    }
    let proto = match rt.system.object {
        Some(c) => {
            proof {
                assert(rt.class_wf(c.0 as int));
            }
            rt.classes[c.0].prototype
        },
        None => None,
    };
    let params_obj: ObjectId = ScriptObject::custom_object(rt, rt.system.object, proto);
    let ghost made = *rt;
    let mut i: usize = 0;
    assert(parameters@.take(0) =~= Seq::<Parameter>::empty());
    while i < parameters.len()
        invariant
            rt.wf(),
            i <= parameters@.len(),
            made.same_but_object(rt, params_obj),
            params_obj == old(rt).objects@.len(),
            made.objects@.len() == old(rt).objects@.len() + 1,
            !rt.objects@[params_obj as int].base.sealed,
            rt.objects@[params_obj as int].base.instance_of == old(rt).system.object,
            rt.objects@[params_obj as int].base.values@ == parameter_values(parameters@.take(i as int)),
        decreases parameters@.len() - i,
    {
        let parameter = parameters[i];
        let name = Multiname::new(Namespace::public(), parameter.name);
        assert(name.ns@[0] == Namespace::spec_public());
        let ghost before = *rt;
        let written = rt.set_property_local(params_obj, &name, Value::String(parameter.value));
        proof {
            assert(written is Ok);
            assert(parameters@.take(i + 1).drop_last() =~= parameters@.take(i as int));
            assert(parameters@.take(i + 1).last() == parameter);
            assert forall|k: int| 0 <= k < made.objects@.len() && k != params_obj implies rt.objects@[k] == made.objects@[k] by {
                assert(before.objects@[k] == made.objects@[k]);
            }
        }
        i += 1;
    }
    proof {
        assert(parameters@.take(i as int) =~= parameters@);
        assert(old(rt).objects@.is_prefix_of(rt.objects@)) by {
            assert forall|k: int| 0 <= k < old(rt).objects@.len() implies rt.objects@[k] == old(rt).objects@[k] by {
                assert(made.objects@[k] == old(rt).objects@[k]);
            }
        }
        assert(rt.objects@.last() == rt.objects@[params_obj as int]);
    }
    Ok(Value::Object(params_obj))
}

} // verus!
