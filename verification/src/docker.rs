//! Building the image of a service.

use vstd::prelude::*;
use crate::k8s::image_name;
use crate::process::Invocation;
use crate::process::InvocationSpec;
use crate::process::call;
use crate::process::no_texts;
use crate::process::plain_call;
use crate::process::push_text;
use crate::process::texts;
use crate::text::concat3;

verus! {

/// The directory from which the image of a service is built.
pub open spec fn build_directory(project_location: Seq<char>, service_name: Seq<char>) -> Seq<char> {
    project_location + "/services/"@ + service_name
}

/// The call that builds the image of a service: the image is named after
/// the application and the service, and built from the service's directory.
pub open spec fn image_build_call(
    project_location: Seq<char>,
    app_name: Seq<char>,
    service_name: Seq<char>,
) -> InvocationSpec {
    plain_call(
        "docker"@,
        seq![
            "build"@,
            "-t"@,
            image_name(app_name, service_name),
            build_directory(project_location, service_name),
        ],
    )
}

/// The call that builds the image of a service.
pub fn build_service_image(project_location: &str, app_name: &str, service_name: &str) -> (r:
    Invocation)
    ensures
        r@ == image_build_call(project_location@, app_name@, service_name@),
{
    let service_image_name = concat3(app_name, "-", service_name);
    let service_directory = concat3(project_location, "/services/", service_name);
    let mut args = no_texts();
    push_text(&mut args, "build");
    push_text(&mut args, "-t");
    push_text(&mut args, service_image_name.as_str());
    push_text(&mut args, service_directory.as_str());
    proof {
        assert(texts(args@) =~= seq![
            "build"@,
            "-t"@,
            image_name(app_name@, service_name@),
            build_directory(project_location@, service_name@),
        ]);
    }
    call("docker", args)
}

} // verus!
