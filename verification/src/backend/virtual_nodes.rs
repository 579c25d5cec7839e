//! The descriptions with which virtual devices are created on the server.
use vstd::prelude::*;

use super::properties::{spa_string, Properties};
use super::properties;
use crate::domain::ids::VirtualDeviceId;
use crate::domain::ids;
use crate::text::{joined, joined3};

verus! {

/// The properties of the sink behind a virtual input.
pub open spec fn input_properties(
    device: VirtualDeviceId,
    name: Seq<char>,
) -> Seq<(Seq<char>, Seq<char>)> {
    seq![
        ("factory.name"@, "support.null-audio-sink"@),
        ("node.name"@, "orion.virtual-input."@ + ids::hyphenated(device.value)),
        ("node.description"@, name),
        ("node.nick"@, name),
        ("node.virtual"@, "false"@),
        ("node.autoconnect"@, "false"@),
        ("object.linger"@, "false"@),
        ("session.suspend-timeout-seconds"@, "0"@),
        ("application.id"@, "io.github.gardun0.orion"@),
        ("application.name"@, "Orion"@),
        ("orion.virtual-device-id"@, ids::hyphenated(device.value)),
        ("orion.virtual-device-role"@, "input"@),
        ("media.class"@, "Audio/Sink"@),
        ("media.role"@, "Music"@),
        ("media.icon-name"@, "audio-card"@),
        ("device.icon-name"@, "audio-card"@),
        ("device.class"@, "sound"@),
        ("priority.session"@, "1000"@),
        ("audio.channels"@, "2"@),
        ("audio.position"@, "FL,FR"@),
        ("monitor.channel-volumes"@, "true"@),
    ]
}

/// The properties of the sink behind a virtual input. It is neither marked as
/// virtual nor suspended when idle, so that desktops list it.
pub fn virtual_input_properties(device: VirtualDeviceId, name: &str) -> (props: Properties)
    ensures
        props@ == input_properties(device, name@),
{
    let id = device.to_text();
    let node_name = joined("orion.virtual-input.", id.as_str());
    let mut props = Properties::new();
    props.add_entry("factory.name", "support.null-audio-sink");
    props.add_entry("node.name", node_name.as_str());
    props.add_entry("node.description", name);
    props.add_entry("node.nick", name);
    props.add_entry("node.virtual", "false");
    props.add_entry("node.autoconnect", "false");
    props.add_entry("object.linger", "false");
    props.add_entry("session.suspend-timeout-seconds", "0");
    props.add_entry("application.id", "io.github.gardun0.orion");
    props.add_entry("application.name", "Orion");
    props.add_entry("orion.virtual-device-id", id.as_str());
    props.add_entry("orion.virtual-device-role", "input");
    props.add_entry("media.class", "Audio/Sink");
    props.add_entry("media.role", "Music");
    props.add_entry("media.icon-name", "audio-card");
    props.add_entry("device.icon-name", "audio-card");
    props.add_entry("device.class", "sound");
    props.add_entry("priority.session", "1000");
    props.add_entry("audio.channels", "2");
    props.add_entry("audio.position", "FL,FR");
    props.add_entry("monitor.channel-volumes", "true");
    assert(props@ =~= input_properties(device, name@));
    props
}

/// The arguments of the loopback behind a virtual output: a hidden node that
/// takes the audio in, and a source that offers it.
pub open spec fn loopback_text(device: VirtualDeviceId, name: Seq<char>) -> Seq<char> {
    let id = properties::spa_quoted(ids::hyphenated(device.value));
    let description = properties::spa_quoted(name);
    let application = properties::spa_quoted("io.github.gardun0.orion"@);
    "{\n            node.description = "@ + description
        + "\n            audio.position = [ FL FR ]\n            capture.props = {\n                node.name = "@
        + properties::spa_quoted("orion.virtual-output-ingress."@ + ids::hyphenated(device.value))
        + "\n                node.description = "@ + properties::spa_quoted(name + " ingress"@)
        + "\n                media.class = Stream/Input/Audio/Internal\n                node.virtual = true\n                node.hidden = true\n                node.autoconnect = false\n                node.passive = true\n                object.linger = false\n                application.id = "@
        + application + "\n                orion.virtual-device-id = "@ + id
        + "\n                orion.virtual-device-role = output-ingress\n                audio.channels = 2\n                audio.position = [ FL FR ]\n            }\n            playback.props = {\n                node.name = "@
        + properties::spa_quoted("orion.virtual-output."@ + ids::hyphenated(device.value))
        + "\n                node.description = "@ + description + "\n                node.nick = "@
        + description
        + "\n                media.class = Audio/Source\n                media.role = Production\n                media.icon-name = audio-input-microphone\n                device.icon-name = audio-input-microphone\n                device.class = sound\n                priority.session = 2000\n                node.virtual = false\n                node.autoconnect = false\n                object.linger = false\n                session.suspend-timeout-seconds = 0\n                application.id = "@
        + application
        + "\n                application.name = Orion\n                orion.virtual-device-id = "@
        + id
        + "\n                orion.virtual-device-role = output\n                audio.channels = 2\n                audio.position = [ FL FR ]\n            }\n        }"@
}

/// The arguments of the loopback behind a virtual output.
pub fn loopback_arguments(device: VirtualDeviceId, name: &str) -> (arguments: String)
    ensures
        arguments@ == loopback_text(device, name@),
{
    let id_text = device.to_text();
    let id = spa_string(id_text.as_str());
    let description = spa_string(name);
    let application = spa_string("io.github.gardun0.orion");
    let ingress_name = spa_string(
        joined("orion.virtual-output-ingress.", id_text.as_str()).as_str(),
    );
    let ingress_description = spa_string(joined(name, " ingress").as_str());
    let source_name = spa_string(joined("orion.virtual-output.", id_text.as_str()).as_str());
    let mut arguments = joined3(
        "{\n            node.description = ",
        description.as_str(),
        "\n            audio.position = [ FL FR ]\n            capture.props = {\n                node.name = ",
    );
    arguments.append(ingress_name.as_str());
    arguments.append("\n                node.description = ");
    arguments.append(ingress_description.as_str());
    arguments.append(
        "\n                media.class = Stream/Input/Audio/Internal\n                node.virtual = true\n                node.hidden = true\n                node.autoconnect = false\n                node.passive = true\n                object.linger = false\n                application.id = ",
    );
    arguments.append(application.as_str());
    arguments.append("\n                orion.virtual-device-id = ");
    arguments.append(id.as_str());
    arguments.append(
        "\n                orion.virtual-device-role = output-ingress\n                audio.channels = 2\n                audio.position = [ FL FR ]\n            }\n            playback.props = {\n                node.name = ",
    );
    arguments.append(source_name.as_str());
    arguments.append("\n                node.description = ");
    arguments.append(description.as_str());
    arguments.append("\n                node.nick = ");
    arguments.append(description.as_str());
    arguments.append(
        "\n                media.class = Audio/Source\n                media.role = Production\n                media.icon-name = audio-input-microphone\n                device.icon-name = audio-input-microphone\n                device.class = sound\n                priority.session = 2000\n                node.virtual = false\n                node.autoconnect = false\n                object.linger = false\n                session.suspend-timeout-seconds = 0\n                application.id = ",
    );
    arguments.append(application.as_str());
    arguments.append(
        "\n                application.name = Orion\n                orion.virtual-device-id = ",
    );
    arguments.append(id.as_str());
    arguments.append(
        "\n                orion.virtual-device-role = output\n                audio.channels = 2\n                audio.position = [ FL FR ]\n            }\n        }",
    );
    arguments
}

/// The sink behind a virtual input carries its device in its name and in its
/// properties, is shown under the name that it was given, is stereo, and stays
/// until it is taken away.
pub proof fn law_a_virtual_input_names_its_device(device: VirtualDeviceId, name: Seq<char>)
    ensures
        ({
            let props = input_properties(device, name);
            let id = ids::hyphenated(device.value);
            &&& props.contains(("node.name"@, "orion.virtual-input."@ + id))
            &&& props.contains(("orion.virtual-device-id"@, id))
            &&& props.contains(("orion.virtual-device-role"@, "input"@))
            &&& props.contains(("node.description"@, name))
            &&& props.contains(("node.nick"@, name))
            &&& props.contains(("media.class"@, "Audio/Sink"@))
            &&& props.contains(("application.id"@, "io.github.gardun0.orion"@))
            &&& props.contains(("audio.channels"@, "2"@))
            &&& props.contains(("audio.position"@, "FL,FR"@))
            &&& props.contains(("node.virtual"@, "false"@))
            &&& props.contains(("session.suspend-timeout-seconds"@, "0"@))
            &&& props.len() == 21
        }),
{
    let props = input_properties(device, name);
    let id = ids::hyphenated(device.value);
    assert(props[1] == ("node.name"@, "orion.virtual-input."@ + id));
    assert(props[2] == ("node.description"@, name));
    assert(props[3] == ("node.nick"@, name));
    assert(props[4] == ("node.virtual"@, "false"@));
    assert(props[7] == ("session.suspend-timeout-seconds"@, "0"@));
    assert(props[8] == ("application.id"@, "io.github.gardun0.orion"@));
    assert(props[10] == ("orion.virtual-device-id"@, id));
    assert(props[11] == ("orion.virtual-device-role"@, "input"@));
    assert(props[12] == ("media.class"@, "Audio/Sink"@));
    assert(props[18] == ("audio.channels"@, "2"@));
    assert(props[19] == ("audio.position"@, "FL,FR"@));
}

} // verus!
